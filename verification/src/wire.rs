//! Byte-level building blocks: big-endian integers and fixed-width fields.

use vstd::prelude::*;

verus! {

/// The four bytes of `x`, most significant first.
pub open spec fn be_bytes(x: u32) -> Seq<u8> {
    seq![
        (x / 0x100_0000) as u8,
        ((x / 0x1_0000) % 0x100) as u8,
        ((x / 0x100) % 0x100) as u8,
        (x % 0x100) as u8,
    ]
}

/// The integer whose big-endian bytes are the first four bytes of `s`.
pub open spec fn be_value(s: Seq<u8>) -> u32
    recommends
        s.len() >= 4,
{
    (s[0] as int * 0x100_0000 + s[1] as int * 0x1_0000 + s[2] as int * 0x100 + s[3] as int) as u32
}

/// Decoding the encoding of `x` gives `x` back.
pub proof fn lemma_be_value_of_bytes(x: u32)
    ensures
        be_bytes(x).len() == 4,
        be_value(be_bytes(x)) == x,
{
}

/// Encoding the value of four bytes gives the four bytes back.
pub proof fn lemma_be_bytes_of_value(s: Seq<u8>)
    requires
        s.len() == 4,
    ensures
        be_bytes(be_value(s)) == s,
{
    assert(be_bytes(be_value(s)) =~= s);
}

/// `bytes` followed by as many zero bytes as it takes to fill `width`.
pub open spec fn zero_padded(bytes: Seq<u8>, width: nat) -> Seq<u8>
    recommends
        bytes.len() <= width,
{
    Seq::new(width, |i: int| if i < bytes.len() { bytes[i] } else { 0u8 })
}

/// Length of the longest prefix of `s` that holds no zero byte.
pub open spec fn text_len(s: Seq<u8>) -> nat
    decreases s.len(),
{
    if s.len() == 0 || s[0] == 0 {
        0
    } else {
        1 + text_len(s.skip(1))
    }
}

/// `text_len` is the index of the first zero byte, or the length where there is none.
pub proof fn lemma_text_len(s: Seq<u8>)
    ensures
        text_len(s) <= s.len(),
        forall|i: int| 0 <= i < text_len(s) ==> s[i] != 0,
        text_len(s) < s.len() ==> s[text_len(s) as int] == 0,
    decreases s.len(),
{
    if s.len() != 0 && s[0] != 0 {
        let t = s.skip(1);
        lemma_text_len(t);
        assert forall|i: int| 0 <= i < text_len(s) implies s[i] != 0 by {
            if i > 0 {
                assert(s[i] == t[i - 1]);
            }
        }
        if text_len(s) < s.len() {
            assert(s[text_len(s) as int] == t[text_len(t) as int]);
        }
    }
}

/// Any index with the three properties of `lemma_text_len` is `text_len`.
pub proof fn lemma_text_len_unique(s: Seq<u8>, k: int)
    requires
        0 <= k <= s.len(),
        forall|i: int| 0 <= i < k ==> s[i] != 0,
        k < s.len() ==> s[k] == 0,
    ensures
        text_len(s) == k,
{
    lemma_text_len(s);
    let t = text_len(s) as int;
    if t < k {
        assert(s[t] == 0);
    } else if k < t {
        assert(s[k] == 0);
    }
}

/// Index of the first zero byte of `bytes`; its length where it holds none.
pub fn first_zero(bytes: &[u8]) -> (k: usize)
    ensures
        k == text_len(bytes@),
        k <= bytes@.len(),
{
    let total: usize = bytes.len();
    let mut i: usize = 0;
    while i < total && bytes[i] != 0
        invariant
            i <= total,
            total == bytes@.len(),
            forall|j: int| 0 <= j < i ==> bytes@[j] != 0,
        decreases total - i,
    {
        i += 1;
    }
    proof {
        lemma_text_len_unique(bytes@, i as int);
    }
    i
}

/// Encodes `x` as four bytes, most significant first.
pub fn u32_to_be_bytes(x: u32) -> (out: [u8; 4])
    ensures
        out@ == be_bytes(x),
{
    let out: [u8; 4] = [
        (x / 0x100_0000) as u8,
        ((x / 0x1_0000) % 0x100) as u8,
        ((x / 0x100) % 0x100) as u8,
        (x % 0x100) as u8,
    ];
    assert(out@ =~= be_bytes(x));
    out
}

/// Reads the big-endian integer that starts at `bytes[at]`.
pub fn u32_from_be_bytes(bytes: &[u8], at: usize) -> (x: u32)
    requires
        at + 4 <= bytes@.len(),
    ensures
        x == be_value(bytes@.subrange(at as int, at + 4)),
{
    let b0: u32 = bytes[at] as u32;
    let b1: u32 = bytes[at + 1] as u32;
    let b2: u32 = bytes[at + 2] as u32;
    let b3: u32 = bytes[at + 3] as u32;
    b0 * 0x100_0000 + b1 * 0x1_0000 + b2 * 0x100 + b3
}

/// Copies the `N` bytes that start at `bytes[at]` into an array.
pub fn read_field<const N: usize>(bytes: &[u8], at: usize) -> (out: [u8; N])
    requires
        at + N <= bytes@.len(),
    ensures
        out@ == bytes@.subrange(at as int, at + N),
{
    let total: usize = bytes.len();
    let mut out: [u8; N] = [0u8; N];
    let mut i: usize = 0;
    while i < N
        invariant
            i <= N,
            total == bytes@.len(),
            at + N <= bytes@.len(),
            forall|j: int| 0 <= j < i ==> out@[j] == bytes@[at + j],
        decreases N - i,
    {
        out[i] = bytes[at + i];
        i += 1;
    }
    assert(out@ =~= bytes@.subrange(at as int, at + N));
    out
}

/// Appends the elements of an array to a vector.
pub fn push_field<const N: usize>(buffer: &mut Vec<u8>, field: &[u8; N])
    ensures
        final(buffer)@ == old(buffer)@ + field@,
{
    buffer.extend_from_slice(field.as_slice());
}

} // verus!
