//! What a client keeps on disk: one message log per peer, and the list of
//! its peers.
//!
//! A log is an append-only run of records, oldest first. Each record is a delimiter
//! followed by one chat message in its wire form:
//!
//! ```text
//! delimiter: bytes[4] | msg_length: u32 | sender: bytes[50] | receiver: bytes[50] | payload
//! ```
//!
//! A record whose end is missing was cut short while it was written. It can
//! only be the last one, and reading stops before it without an error.
//!
//! The peer list is an append-only run of username fields, one per peer, in
//! the order in which the peers were added. The connection index is
//! rebuilt from it, and the log of a peer is kept in a file named after the
//! peer.
//!
//! The functions here work on the bytes of these files; opening, appending
//! to and reading a file is left to the caller.

use vstd::prelude::*;
use vstd::string::StringExecFns;
use vstd::utf8::encode_utf8;
use crate::chat_message::{
    chat_fixed_size, lemma_chat_message_roundtrip, parse_chat_message, ChatMessage,
    ChatMessageView,
};
use crate::conn_map::{distinct_keys, has_key, insert, lemma_with_entry, with_entry, ConnMap};
use crate::errors::{ConnError, LengthError, LogError};
use crate::field_lens::{MSGLEN_LEN, UNAME_LEN};
use crate::shared::{encode_uname, lemma_uname_text_of_padded, uname_text, uname_to_string};
use crate::wire::{
    be_bytes, be_value, first_zero, lemma_be_value_of_bytes, lemma_text_len, read_field,
    text_len, u32_from_be_bytes, zero_padded,
};

verus! {

/// Name of the directory that holds a client's data, under the home directory.
pub const ROOT_DIR_NAME: &'static str = ".cli_chat";

/// Name of the file that holds the client's token.
pub const TOKEN_FN: &'static str = "token";

/// Name of the file that holds the client's username.
pub const UNAME_FN: &'static str = "username";

/// Name of the file that lists the peers.
pub const CONN_LIST_FN: &'static str = "connections-list";

/// Name of the directory that holds one log per peer.
pub const CONN_DIR_NAME: &'static str = "connections";

/// What the name of every log file starts with.
pub const CONN_FILE_PREFIX: &'static str = "conn";

/// Width of the delimiter.
pub const NUM_MAGIC_BYTES: usize = 4;

/// The byte that the delimiter repeats.
pub const MAGIC_BYTE: u8 = 45;

/// The delimiter that starts every record.
pub open spec fn magic() -> Seq<u8> {
    seq![MAGIC_BYTE, MAGIC_BYTE, MAGIC_BYTE, MAGIC_BYTE]
}

/// One record: the delimiter, then the message.
pub open spec fn log_record(m: ChatMessageView) -> Seq<u8> {
    magic() + m.wire()
}

/// A message that a log can hold: well-formed, with a payload that is not empty.
pub open spec fn storable(m: ChatMessageView) -> bool {
    m.wf() && m.msg_length != 0
}

/// The log that results from appending the records of `msgs` in order.
pub open spec fn log_bytes(msgs: Seq<ChatMessageView>) -> Seq<u8>
    decreases msgs.len(),
{
    if msgs.len() == 0 {
        Seq::empty()
    } else {
        log_bytes(msgs.drop_last()) + log_record(msgs.last())
    }
}

/// `first` put in front of what `rest` holds; an error stays an error.
pub open spec fn prepend(first: Seq<ChatMessageView>, rest: Result<Seq<ChatMessageView>, LogError>)
    -> Result<Seq<ChatMessageView>, LogError> {
    match rest {
        Ok(msgs) => Ok(first + msgs),
        Err(e) => Err(e),
    }
}

/// What reading `log` from byte `pos` on gives.
///
/// Reading ends without error where fewer bytes are left than the next
/// part of a record needs: the delimiter, the length prefix, or the rest of
/// the message. It fails where four bytes are there and are not the
/// delimiter, and where a length prefix declares an empty payload.
#[verifier::opaque]
pub open spec fn parse_log_from(log: Seq<u8>, pos: int) -> Result<Seq<ChatMessageView>, LogError>
    decreases log.len() - pos,
{
    let left = log.len() - pos;
    let declared = be_value(log.subrange(pos + 4, pos + 8));
    let end = pos + 4 + chat_fixed_size() + declared;
    if pos < 0 || left < 4 {
        Ok(Seq::empty())
    } else if log.subrange(pos, pos + 4) != magic() {
        Err(LogError::BadDelimiter { offset: pos as usize })
    } else if left < 8 {
        Ok(Seq::empty())
    } else if declared == 0 {
        Err(LogError::EmptyPayload { offset: pos as usize })
    } else if log.len() < end {
        Ok(Seq::empty())
    } else {
        prepend(
            seq![parse_chat_message(log.subrange(pos + 4, end))->Ok_0],
            parse_log_from(log, end),
        )
    }
}

/// One step of `parse_log_from`, spelled out.
pub proof fn lemma_parse_log_step(log: Seq<u8>, pos: int)
    ensures
        parse_log_from(log, pos) == ({
            let left = log.len() - pos;
            let declared = be_value(log.subrange(pos + 4, pos + 8));
            let end = pos + 4 + chat_fixed_size() + declared;
            if pos < 0 || left < 4 {
                Ok(Seq::empty())
            } else if log.subrange(pos, pos + 4) != magic() {
                Err(LogError::BadDelimiter { offset: pos as usize })
            } else if left < 8 {
                Ok(Seq::empty())
            } else if declared == 0 {
                Err(LogError::EmptyPayload { offset: pos as usize })
            } else if log.len() < end {
                Ok(Seq::empty())
            } else {
                prepend(
                    seq![parse_chat_message(log.subrange(pos + 4, end))->Ok_0],
                    parse_log_from(log, end),
                )
            }
        }),
{
    reveal(parse_log_from);
}

/// What reading a whole log gives: its messages, oldest first.
pub open spec fn parse_log(log: Seq<u8>) -> Result<Seq<ChatMessageView>, LogError> {
    parse_log_from(log, 0)
}

/// The views of a run of messages.
pub open spec fn views(msgs: Seq<ChatMessage>) -> Seq<ChatMessageView> {
    msgs.map_values(|m: ChatMessage| m@)
}

/// Where a record of a storable message stands at `pos`, reading from `pos`
/// gives that message and then what reading from the record's end gives.
pub proof fn lemma_parse_record(log: Seq<u8>, pos: int, m: ChatMessageView)
    requires
        storable(m),
        0 <= pos,
        pos + log_record(m).len() <= log.len(),
        log.subrange(pos, pos + log_record(m).len()) == log_record(m),
    ensures
        log_record(m).len() == 4 + chat_fixed_size() + m.msg_length,
        parse_log_from(log, pos) == prepend(
            seq![m],
            parse_log_from(log, pos + log_record(m).len()),
        ),
{
    let record = log_record(m);
    let end = pos + record.len();
    lemma_parse_log_step(log, pos);
    lemma_be_value_of_bytes(m.msg_length);
    lemma_chat_message_roundtrip(m, Seq::empty());
    assert(m.wire() + Seq::<u8>::empty() =~= m.wire());
    assert(log.subrange(pos, pos + 4) =~= record.subrange(0, 4));
    assert(record.subrange(0, 4) =~= magic());
    assert(log.subrange(pos + 4, pos + 8) =~= record.subrange(4, 8));
    assert(record.subrange(4, 8) =~= be_bytes(m.msg_length));
    assert(log.subrange(pos + 4, end) =~= record.subrange(4, record.len() as int));
    assert(record.subrange(4, record.len() as int) =~= m.wire());
}

/// Where the records of storable messages stand at `pos`, reading from `pos`
/// gives those messages in order and then what reading from their end gives.
pub proof fn lemma_parse_records(log: Seq<u8>, pos: int, msgs: Seq<ChatMessageView>)
    requires
        forall|i: int| 0 <= i < msgs.len() ==> storable(#[trigger] msgs[i]),
        0 <= pos,
        pos + log_bytes(msgs).len() <= log.len(),
        log.subrange(pos, pos + log_bytes(msgs).len()) == log_bytes(msgs),
    ensures
        parse_log_from(log, pos) == prepend(
            msgs,
            parse_log_from(log, pos + log_bytes(msgs).len()),
        ),
    decreases msgs.len(),
{
    let after = parse_log_from(log, pos + log_bytes(msgs).len());
    if msgs.len() == 0 {
        match after {
            Ok(rest) => {
                assert(msgs + rest =~= rest);
            },
            Err(_) => {},
        }
    } else {
        let init = msgs.drop_last();
        let m = msgs.last();
        let mid = pos + log_bytes(init).len();
        let all = log_bytes(msgs);
        assert(log.subrange(pos, mid) =~= all.subrange(0, log_bytes(init).len() as int));
        assert(all.subrange(0, log_bytes(init).len() as int) =~= log_bytes(init));
        assert(log.subrange(mid, mid + log_record(m).len()) =~= all.subrange(
            log_bytes(init).len() as int,
            all.len() as int,
        ));
        assert(all.subrange(log_bytes(init).len() as int, all.len() as int) =~= log_record(m));
        lemma_parse_records(log, pos, init);
        lemma_parse_record(log, mid, m);
        match after {
            Ok(rest) => {
                assert(init + (seq![m] + rest) =~= msgs + rest);
            },
            Err(_) => {},
        }
    }
}

/// A log that holds nothing but the records of storable messages reads back
/// as exactly those messages, in the order in which they were appended.
pub proof fn lemma_log_roundtrip(msgs: Seq<ChatMessageView>)
    requires
        forall|i: int| 0 <= i < msgs.len() ==> storable(#[trigger] msgs[i]),
    ensures
        parse_log(log_bytes(msgs)) == Ok::<Seq<ChatMessageView>, LogError>(msgs),
{
    let log = log_bytes(msgs);
    assert(log.subrange(0, log.len() as int) =~= log);
    lemma_parse_records(log, 0, msgs);
    lemma_parse_log_step(log, log.len() as int);
    assert(msgs + Seq::<ChatMessageView>::empty() =~= msgs);
}

/// What is left of a record that was cut short before its length prefix
/// was complete: a part of the delimiter, or the delimiter and less than
/// four bytes more.
pub open spec fn cut_before_length(tail: Seq<u8>) -> bool {
    tail.len() < 4 || (tail.len() < 8 && tail.take(4) == magic())
}

/// What is left of the record of `m` when its end is missing.
pub open spec fn cut_record_of(tail: Seq<u8>, m: ChatMessageView) -> bool {
    tail.len() < log_record(m).len() && tail == log_record(m).take(tail.len() as int)
}

/// A log that ends in a record cut short, anywhere before the record's
/// end, reads back as the messages before it: the partial record is left
/// out and is no error.
pub proof fn lemma_log_truncated(msgs: Seq<ChatMessageView>, tail: Seq<u8>, cut: ChatMessageView)
    requires
        forall|i: int| 0 <= i < msgs.len() ==> storable(#[trigger] msgs[i]),
        cut_before_length(tail) || (storable(cut) && cut_record_of(tail, cut)),
    ensures
        parse_log(log_bytes(msgs) + tail) == Ok::<Seq<ChatMessageView>, LogError>(msgs),
{
    let body = log_bytes(msgs);
    let log = body + tail;
    let at = body.len() as int;
    assert(log.subrange(0, at) =~= body);
    lemma_parse_records(log, 0, msgs);
    assert(msgs + Seq::<ChatMessageView>::empty() =~= msgs);
    lemma_parse_log_step(log, at);
    if tail.len() >= 4 {
        assert(log.subrange(at, at + 4) =~= tail.take(4));
        if !cut_before_length(tail) {
            let record = log_record(cut);
            lemma_be_value_of_bytes(cut.msg_length);
            assert(tail.take(4) =~= record.subrange(0, 4));
            assert(record.subrange(0, 4) =~= magic());
            if tail.len() >= 8 {
                assert(log.subrange(at + 4, at + 8) =~= record.subrange(4, 8));
                assert(record.subrange(4, 8) =~= be_bytes(cut.msg_length));
            }
        }
    }
    assert(parse_log_from(log, at) == Ok::<Seq<ChatMessageView>, LogError>(Seq::empty()));
}

/// A log that ends right after a delimiter, with no length prefix behind
/// it, reads back as the messages before that delimiter.
pub proof fn lemma_log_ends_in_delimiter(msgs: Seq<ChatMessageView>)
    requires
        forall|i: int| 0 <= i < msgs.len() ==> storable(#[trigger] msgs[i]),
    ensures
        parse_log(log_bytes(msgs) + magic()) == Ok::<Seq<ChatMessageView>, LogError>(msgs),
{
    assert(magic().take(4) =~= magic());
    lemma_log_truncated(msgs, magic(), arbitrary());
}

/// The identifier of the log of the peer `uname`: the name of its file.
pub open spec fn file_name_of(uname: Seq<char>) -> Seq<char> {
    CONN_FILE_PREFIX@ + "_"@ + uname
}

/// Name of the log file of the peer `uname`: the prefix, an underscore, the name.
pub fn get_conn_file_name(uname: &str) -> (name: String)
    ensures
        name@ == file_name_of(uname@),
{
    String::from_str(CONN_FILE_PREFIX).concat("_").concat(uname)
}

/// The username in record `i` of a peer list.
pub open spec fn record_name(list: Seq<u8>, i: int) -> Seq<char> {
    uname_text(list.subrange(i * UNAME_LEN, i * UNAME_LEN + UNAME_LEN))
}

/// The index that the first `n` records of a peer list give: each name in
/// turn is entered with the identifier of its log.
pub open spec fn index_of_records(list: Seq<u8>, n: nat) -> Seq<(Seq<char>, Seq<char>)>
    decreases n,
{
    if n == 0 {
        Seq::empty()
    } else {
        let name = record_name(list, n - 1);
        with_entry(index_of_records(list, (n - 1) as nat), name, file_name_of(name))
    }
}

/// Rebuilds the connection index from the persisted peer list: one
/// username field per peer, in the order in which the peers were added.
/// Bytes after the last whole record are left out.
pub fn init_conn_map(list: &[u8]) -> (map: ConnMap)
    ensures
        map.wf(),
        map@ == index_of_records(list@, list@.len() / UNAME_LEN as nat),
{
    let count: usize = list.len() / UNAME_LEN;
    let mut map = ConnMap::new();
    let mut i: usize = 0;
    while i < count
        invariant
            i <= count,
            count == list@.len() / UNAME_LEN as nat,
            count * UNAME_LEN <= list@.len() <= usize::MAX,
            map.wf(),
            map@ == index_of_records(list@, i as nat),
        decreases count - i,
    {
        let record: [u8; UNAME_LEN] = read_field(list, i * UNAME_LEN);
        let name = uname_to_string(record);
        let file_name = get_conn_file_name(name.as_str());
        insert(&mut map, name, file_name);
        i += 1;
    }
    map
}

/// What has to be persisted for a peer that was added to the index.
#[derive(Debug, Clone, PartialEq, Eq)]
pub struct NewConnection {
    /// The record to append to the peer list.
    pub record: [u8; UNAME_LEN],
    /// The name of the log file to create, empty.
    pub file_name: String,
}

/// The error with which `add_new_connection` refuses a username on its own
/// account, whatever the index holds; `None` for a name that can be a
/// peer's. A name wider than a username field is refused first, then one
/// that holds a zero byte.
pub open spec fn uname_error(uname: Seq<char>) -> Option<ConnError> {
    let bytes = encode_utf8(uname);
    if bytes.len() > UNAME_LEN {
        Some(ConnError::TooLong(LengthError { expected: UNAME_LEN, actual: bytes.len() as usize }))
    } else if text_len(bytes) < bytes.len() {
        Some(ConnError::ZeroByte { at: text_len(bytes) as usize })
    } else {
        None
    }
}

/// Adds the peer `uname` to the index and says what to persist for it: the
/// record for the peer list and the name of its log file. The record reads
/// back as `uname`, so that the peer list and the index stay in step.
///
/// Refused, with the index left as it was, in this order: a name wider
/// than a username field, a name that holds a zero byte, and a name that
/// the index already holds. Where persisting fails, the caller takes the
/// peer out of the index again.
pub fn add_new_connection(map: &mut ConnMap, uname: String) -> (r: Result<NewConnection, ConnError>)
    requires
        old(map).wf(),
    ensures
        final(map).wf(),
        match r {
            Ok(c) => {
                &&& uname_error(uname@) is None
                &&& !has_key(old(map)@, uname@)
                &&& c.record@ == zero_padded(encode_utf8(uname@), UNAME_LEN as nat)
                &&& uname_text(c.record@) == uname@
                &&& c.file_name@ == file_name_of(uname@)
                &&& final(map)@ == old(map)@.push((uname@, file_name_of(uname@)))
                &&& has_key(final(map)@, uname@)
            },
            Err(e) => {
                &&& *final(map) == *old(map)
                &&& match uname_error(uname@) {
                    Some(refusal) => e == refusal,
                    None => e == ConnError::AlreadyConnected && has_key(old(map)@, uname@),
                }
            },
        },
{
    let record = match encode_uname(uname.as_str()) {
        Ok(field) => field,
        Err(e) => { return Err(ConnError::TooLong(e)); },
    };
    let bytes = uname.as_str().as_bytes();
    let at: usize = first_zero(bytes);
    if at < bytes.len() {
        return Err(ConnError::ZeroByte { at });
    }
    if map.position(uname.as_str()).is_some() {
        return Err(ConnError::AlreadyConnected);
    }
    let file_name = get_conn_file_name(uname.as_str());
    proof {
        lemma_text_len(encode_utf8(uname@));
        lemma_uname_text_of_padded(uname@);
        lemma_with_entry(map@, uname@, file_name@, uname@);
    }
    insert(map, uname, file_name.clone());
    Ok(NewConnection { record, file_name })
}

/// The first records of a peer list give the same index, whatever comes
/// after them in the list.
pub proof fn lemma_index_of_longer_list(list: Seq<u8>, more: Seq<u8>, n: nat)
    requires
        n * UNAME_LEN <= list.len(),
    ensures
        index_of_records(list + more, n) == index_of_records(list, n),
    decreases n,
{
    if n > 0 {
        lemma_index_of_longer_list(list, more, (n - 1) as nat);
        let at = (n - 1) * UNAME_LEN;
        assert((list + more).subrange(at, at + UNAME_LEN) =~= list.subrange(at, at + UNAME_LEN));
    }
}

/// The peer list and the index stay in step: where the list holds whole
/// records and the record of a new peer is appended to it, the index that
/// the longer list gives is the index of the shorter one with that peer
/// entered under the identifier of its log. This holds for every name that
/// `add_new_connection` does not refuse on the name's own account.
pub proof fn lemma_index_of_appended_record(list: Seq<u8>, uname: Seq<char>)
    requires
        list.len() % UNAME_LEN as nat == 0,
        uname_error(uname) is None,
    ensures
        index_of_records(
            list + zero_padded(encode_utf8(uname), UNAME_LEN as nat),
            (list.len() / UNAME_LEN as nat + 1) as nat,
        ) == with_entry(
            index_of_records(list, list.len() / UNAME_LEN as nat),
            uname,
            file_name_of(uname),
        ),
{
    let record = zero_padded(encode_utf8(uname), UNAME_LEN as nat);
    let n = list.len() / UNAME_LEN as nat;
    let longer = list + record;
    lemma_index_of_longer_list(list, record, n);
    lemma_text_len(encode_utf8(uname));
    lemma_uname_text_of_padded(uname);
    assert(longer.subrange(n * UNAME_LEN, n * UNAME_LEN + UNAME_LEN) =~= record);
}

/// A peer that was added is in the index, under the identifier of its
/// log, so that adding it once more is refused; and the index still holds
/// no username twice.
pub proof fn lemma_added_peer_is_known(entries: Seq<(Seq<char>, Seq<char>)>, uname: Seq<char>)
    requires
        distinct_keys(entries),
        !has_key(entries, uname),
    ensures
        has_key(entries.push((uname, file_name_of(uname))), uname),
        entries.push((uname, file_name_of(uname))).contains((uname, file_name_of(uname))),
        distinct_keys(entries.push((uname, file_name_of(uname)))),
{
    lemma_with_entry(entries, uname, file_name_of(uname), uname);
}

/// The record to append to a peer's log for `chat_message`: the delimiter
/// and the message's wire form. Refused: a message whose length prefix does
/// not count its payload, and one with an empty payload, which no log holds.
pub fn write_message(chat_message: &ChatMessage) -> (r: Result<Vec<u8>, LengthError>)
    ensures
        match r {
            Ok(record) => storable(chat_message@) && record@ == log_record(chat_message@),
            Err(e) => !storable(chat_message@) && e == (if chat_message.msg_length
                != chat_message.msg_buffer@.len() {
                LengthError {
                    expected: chat_message.msg_length as usize,
                    actual: chat_message.msg_buffer@.len() as usize,
                }
            } else {
                LengthError { expected: 1, actual: 0 }
            }),
        },
{
    if chat_message.msg_length as usize != chat_message.msg_buffer.len() {
        return Err(
            LengthError {
                expected: chat_message.msg_length as usize,
                actual: chat_message.msg_buffer.len(),
            },
        );
    }
    if chat_message.msg_length == 0 {
        return Err(LengthError { expected: 1, actual: 0 });
    }
    let mut record: Vec<u8> = Vec::new();
    let mut i: usize = 0;
    while i < NUM_MAGIC_BYTES
        invariant
            i <= NUM_MAGIC_BYTES,
            record@ == magic().take(i as int),
        decreases NUM_MAGIC_BYTES - i,
    {
        record.push(MAGIC_BYTE);
        i += 1;
        assert(record@ =~= magic().take(i as int));
    }
    let mut message = chat_message.serialize();
    record.append(&mut message);
    assert(record@ =~= log_record(chat_message@));
    Ok(record)
}

/// Reads all messages of a log, oldest first.
///
/// Fails where a record does not start with the delimiter and where one
/// declares an empty payload. A last record that is cut short is left out.
pub fn read_messages(log: &[u8]) -> (r: Result<Vec<ChatMessage>, LogError>)
    ensures
        match r {
            Ok(messages) => parse_log(log@) == Ok::<Seq<ChatMessageView>, LogError>(
                views(messages@),
            ),
            Err(e) => parse_log(log@) == Err::<Seq<ChatMessageView>, LogError>(e),
        },
{
    let total: usize = log.len();
    let fixed: usize = ChatMessage::fixed_size();
    let mut messages: Vec<ChatMessage> = Vec::new();
    let mut pos: usize = 0;
    let mut done: bool = false;
    assert(views(messages@) =~= Seq::empty());
    assert(parse_log(log@) == prepend(views(messages@), parse_log_from(log@, 0))) by {
        lemma_parse_log_step(log@, 0);
        match parse_log_from(log@, 0) {
            Ok(rest) => {
                assert(Seq::<ChatMessageView>::empty() + rest =~= rest);
            },
            Err(_) => {},
        }
    }
    while !done
        invariant
            total == log@.len(),
            fixed == chat_fixed_size(),
            pos <= total,
            parse_log(log@) == prepend(views(messages@), parse_log_from(log@, pos as int)),
            done ==> parse_log_from(log@, pos as int) == Ok::<Seq<ChatMessageView>, LogError>(
                Seq::empty(),
            ),
        decreases total - pos + (if done { 0int } else { 1int }),
    {
        let left: usize = total - pos;
        proof {
            lemma_parse_log_step(log@, pos as int);
        }
        if left < NUM_MAGIC_BYTES {
            done = true;
        } else {
            let delimited: bool = log[pos] == MAGIC_BYTE && log[pos + 1] == MAGIC_BYTE && log[pos
                + 2] == MAGIC_BYTE && log[pos + 3] == MAGIC_BYTE;
            proof {
                let head = log@.subrange(pos as int, pos + 4);
                if delimited {
                    assert(head =~= magic());
                } else {
                    assert(head[0] == log@[pos as int]);
                    assert(head[1] == log@[pos + 1]);
                    assert(head[2] == log@[pos + 2]);
                    assert(head[3] == log@[pos + 3]);
                }
            }
            if !delimited {
                return Err(LogError::BadDelimiter { offset: pos });
            }
            if left < NUM_MAGIC_BYTES + MSGLEN_LEN {
                done = true;
            } else {
                let declared: u32 = u32_from_be_bytes(log, pos + NUM_MAGIC_BYTES);
                if declared == 0 {
                    return Err(LogError::EmptyPayload { offset: pos });
                }
                let after_magic: usize = left - NUM_MAGIC_BYTES;
                if after_magic < fixed || after_magic - fixed < declared as usize {
                    done = true;
                } else {
                    let end: usize = pos + NUM_MAGIC_BYTES + fixed + declared as usize;
                    let record = vstd::slice::slice_subrange(log, pos + NUM_MAGIC_BYTES, end);
                    proof {
                        lemma_record_parses(record@);
                    }
                    let chat_message = ChatMessage::deserialize(record).unwrap();
                    proof {
                        let before = views(messages@);
                        let m = chat_message@;
                        assert(views(messages@.push(chat_message)) =~= before.push(m));
                        match parse_log_from(log@, end as int) {
                            Ok(rest) => {
                                assert(before + (seq![m] + rest) =~= before.push(m) + rest);
                            },
                            Err(_) => {},
                        }
                    }
                    messages.push(chat_message);
                    pos = end;
                }
            }
        }
    }
    proof {
        assert(views(messages@) + Seq::<ChatMessageView>::empty() =~= views(messages@));
    }
    Ok(messages)
}

/// A buffer that is as long as its length prefix says holds a message.
proof fn lemma_record_parses(record: Seq<u8>)
    requires
        record.len() == chat_fixed_size() + be_value(record.subrange(0, 4)),
    ensures
        parse_chat_message(record) is Ok,
{
}

} // verus!
