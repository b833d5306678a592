//! The connection index: which peers a client is connected with, and under
//! which identifier each peer's log is kept.
//!
//! The index is an ordinary value that its owner passes to whoever needs
//! it. It keeps its entries in the order in which the peers were added,
//! and never holds a username twice.

use vstd::prelude::*;
use vstd::string::StringExecFns;

verus! {

/// The peers of a client, each with the identifier of its log.
#[derive(Debug, Clone, PartialEq, Eq)]
pub struct ConnMap {
    /// One entry per peer, oldest first: username, then identifier.
    pub conn_map: Vec<(String, String)>,
}

/// Whether some entry has the username `key`.
pub open spec fn has_key(entries: Seq<(Seq<char>, Seq<char>)>, key: Seq<char>) -> bool {
    exists|i: int| 0 <= i < entries.len() && (#[trigger] entries[i]).0 == key
}

/// No username occurs in two entries.
pub open spec fn distinct_keys(entries: Seq<(Seq<char>, Seq<char>)>) -> bool {
    forall|i: int, j: int|
        0 <= i < j < entries.len() ==> (#[trigger] entries[i]).0 != (#[trigger] entries[j]).0
}

/// The entries after `key` was given the identifier `value`: the entry of
/// `key` is replaced where there is one, else a new entry comes last.
pub open spec fn with_entry(
    entries: Seq<(Seq<char>, Seq<char>)>,
    key: Seq<char>,
    value: Seq<char>,
) -> Seq<(Seq<char>, Seq<char>)> {
    if has_key(entries, key) {
        entries.map_values(
            |e: (Seq<char>, Seq<char>)|
                if e.0 == key {
                    (key, value)
                } else {
                    e
                },
        )
    } else {
        entries.push((key, value))
    }
}

/// After `key` was given an identifier, the index holds `key` with that
/// identifier, holds every other username as before, and still holds no
/// username twice.
pub proof fn lemma_with_entry(
    entries: Seq<(Seq<char>, Seq<char>)>,
    key: Seq<char>,
    value: Seq<char>,
    other: Seq<char>,
)
    requires
        distinct_keys(entries),
    ensures
        distinct_keys(with_entry(entries, key, value)),
        has_key(with_entry(entries, key, value), key),
        with_entry(entries, key, value).contains((key, value)),
        other != key ==> (has_key(with_entry(entries, key, value), other) <==> has_key(
            entries,
            other,
        )),
{
    let after = with_entry(entries, key, value);
    if has_key(entries, key) {
        let i = choose|i: int| 0 <= i < entries.len() && (#[trigger] entries[i]).0 == key;
        assert(after[i] == (key, value));
        assert forall|a: int, b: int| 0 <= a < b < after.len() implies (#[trigger] after[a]).0 != (
        #[trigger] after[b]).0 by {
            assert(after[a].0 == entries[a].0);
            assert(after[b].0 == entries[b].0);
        }
        if other != key {
            if has_key(entries, other) {
                let j = choose|j: int| 0 <= j < entries.len() && (#[trigger] entries[j]).0 == other;
                assert(after[j].0 == other);
            }
            if has_key(after, other) {
                let j = choose|j: int| 0 <= j < after.len() && (#[trigger] after[j]).0 == other;
                assert(entries[j].0 == other);
            }
        }
    } else {
        let last = entries.len() as int;
        assert(after[last] == (key, value));
        assert forall|a: int, b: int| 0 <= a < b < after.len() implies (#[trigger] after[a]).0 != (
        #[trigger] after[b]).0 by {
            if b < last {
                assert(after[a] == entries[a] && after[b] == entries[b]);
            } else {
                assert(after[a] == entries[a]);
            }
        }
        if other != key {
            if has_key(entries, other) {
                let j = choose|j: int| 0 <= j < entries.len() && (#[trigger] entries[j]).0 == other;
                assert(after[j].0 == other);
            }
            if has_key(after, other) {
                let j = choose|j: int| 0 <= j < after.len() && (#[trigger] after[j]).0 == other;
                assert(entries[j].0 == other);
            }
        }
    }
}

/// Usernames and identifiers of a run of entries, as mathematical values.
pub open spec fn entries_view(entries: Seq<(String, String)>) -> Seq<(Seq<char>, Seq<char>)> {
    entries.map_values(|e: (String, String)| (e.0@, e.1@))
}

impl View for ConnMap {
    type V = Seq<(Seq<char>, Seq<char>)>;

    open spec fn view(&self) -> Seq<(Seq<char>, Seq<char>)> {
        entries_view(self.conn_map@)
    }
}

impl ConnMap {
    /// The index holds no username twice.
    pub open spec fn wf(&self) -> bool {
        distinct_keys(self@)
    }

    /// An index without peers.
    pub fn new() -> (map: ConnMap)
        ensures
            map.wf(),
            map@ == Seq::<(Seq<char>, Seq<char>)>::empty(),
    {
        let map = ConnMap { conn_map: Vec::new() };
        assert(map@ =~= Seq::empty());
        map
    }

    /// Where the first entry of `key` stands, if there is one.
    pub fn position(&self, key: &str) -> (found: Option<usize>)
        ensures
            match found {
                Some(i) => {
                    &&& i < self@.len()
                    &&& self@[i as int].0 == key@
                    &&& forall|j: int| 0 <= j < i ==> (#[trigger] self@[j]).0 != key@
                },
                None => !has_key(self@, key@),
            },
    {
        let wanted = String::from_str(key);
        let mut i: usize = 0;
        while i < self.conn_map.len()
            invariant
                i <= self.conn_map@.len(),
                wanted@ == key@,
                forall|j: int| 0 <= j < i ==> (#[trigger] self@[j]).0 != key@,
            decreases self.conn_map@.len() - i,
        {
            if self.conn_map[i].0 == wanted {
                return Some(i);
            }
            i += 1;
        }
        None
    }

    /// The identifier under which the log of `key` is kept, if `key` is a
    /// peer. In an index that holds a username twice, the first entry counts.
    pub fn lookup(&self, key: &str) -> (found: Option<String>)
        ensures
            match found {
                Some(value) => exists|i: int|
                    {
                        &&& 0 <= i < self@.len()
                        &&& #[trigger] self@[i] == (key@, value@)
                        &&& forall|j: int| 0 <= j < i ==> (#[trigger] self@[j]).0 != key@
                    },
                None => !has_key(self@, key@),
            },
    {
        match self.position(key) {
            Some(i) => {
                assert(self@[i as int] == (key@, self.conn_map@[i as int].1@));
                Some(self.conn_map[i].1.clone())
            },
            None => None,
        }
    }
}

/// A copy of the entries of `map`, oldest first.
pub fn get_map(map: &ConnMap) -> (entries: Vec<(String, String)>)
    ensures
        entries_view(entries@) == map@,
{
    let mut entries: Vec<(String, String)> = Vec::new();
    let mut i: usize = 0;
    while i < map.conn_map.len()
        invariant
            i <= map.conn_map@.len(),
            entries_view(entries@) == map@.take(i as int),
        decreases map.conn_map@.len() - i,
    {
        let key = map.conn_map[i].0.clone();
        let value = map.conn_map[i].1.clone();
        let ghost before = entries_view(entries@);
        entries.push((key, value));
        assert(entries_view(entries@) =~= before.push((key@, value@)));
        i += 1;
        assert(entries_view(entries@) =~= map@.take(i as int));
    }
    assert(map@.take(i as int) =~= map@);
    entries
}

/// Gives `key` the identifier `value`: replaces the entry of `key` where
/// there is one, else adds an entry behind all others.
pub fn insert(map: &mut ConnMap, key: String, value: String)
    requires
        old(map).wf(),
    ensures
        final(map).wf(),
        final(map)@ == with_entry(old(map)@, key@, value@),
{
    proof {
        lemma_with_entry(map@, key@, value@, key@);
    }
    match map.position(key.as_str()) {
        Some(i) => {
            let ghost before = map@;
            let ghost k = key@;
            let ghost v = value@;
            map.conn_map.remove(i);
            map.conn_map.insert(i, (key, value));
            assert(map@ =~= with_entry(before, k, v)) by {
                assert forall|j: int| 0 <= j < before.len() implies map@[j] == (if before[j].0
                    == k {
                    (k, v)
                } else {
                    before[j]
                }) by {
                    if j != i {
                        assert(before[j].0 != before[i as int].0);
                    }
                }
            }
        },
        None => {
            let ghost before = map@;
            let ghost k = key@;
            let ghost v = value@;
            map.conn_map.push((key, value));
            assert(map@ =~= with_entry(before, k, v));
        },
    }
}

/// Takes the entry of `key` out of the index, where there is one.
pub fn remove(map: &mut ConnMap, key: &str)
    requires
        old(map).wf(),
    ensures
        final(map).wf(),
        !has_key(final(map)@, key@),
        !has_key(old(map)@, key@) ==> final(map)@ == old(map)@,
        forall|i: int|
            0 <= i < old(map)@.len() && (#[trigger] old(map)@[i]).0 == key@ ==> final(map)@ == old(
                map,
            )@.remove(i),
{
    match map.position(key) {
        Some(i) => {
            let ghost before = map@;
            map.conn_map.remove(i);
            assert(map@ =~= before.remove(i as int));
            assert forall|j: int| 0 <= j < before.len() && (#[trigger] before[j]).0
                == key@ implies j == i by {
                if j < i {
                    assert(before[j].0 != before[i as int].0);
                } else if i < j {
                    assert(before[i as int].0 != before[j].0);
                }
            }
            assert forall|a: int| 0 <= a < map@.len() implies (#[trigger] map@[a]).0 != key@ by {
                if a < i {
                    assert(map@[a] == before[a]);
                } else {
                    assert(map@[a] == before[a + 1]);
                }
            }
            assert forall|a: int, b: int| 0 <= a < b < map@.len() implies (#[trigger] map@[a]).0
                != (#[trigger] map@[b]).0 by {
                let a0 = if a < i { a } else { a + 1 };
                let b0 = if b < i { b } else { b + 1 };
                assert(map@[a] == before[a0] && map@[b] == before[b0]);
            }
        },
        None => {},
    }
}

} // verus!
