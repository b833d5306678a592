//! Helpers for the fixed-width fields that every message kind uses.

use vstd::prelude::*;
use vstd::string::{StringExecFns, StringSliceAdditionalSpecFns};
use vstd::utf8::{decode_utf8, encode_utf8, valid_utf8};
use crate::errors::LengthError;
use crate::field_lens::{TOKEN_LEN, UNAME_LEN};
use crate::wire::{lemma_text_len_unique, text_len, zero_padded};

verus! {

/// Encodes a username as a field: its UTF-8 bytes, then zero bytes up to the
/// field's width. A name whose UTF-8 form is wider than the field is refused.
pub fn encode_uname(name: &str) -> (r: Result<[u8; UNAME_LEN], LengthError>)
    ensures
        name.spec_bytes().len() <= UNAME_LEN ==> r is Ok && r->Ok_0@ == zero_padded(
            name.spec_bytes(),
            UNAME_LEN as nat,
        ),
        name.spec_bytes().len() > UNAME_LEN ==> r == Err::<[u8; UNAME_LEN], LengthError>(
            LengthError { expected: UNAME_LEN, actual: name.spec_bytes().len() as usize },
        ),
{
    let bytes = name.as_bytes();
    let n: usize = bytes.len();
    if n > UNAME_LEN {
        return Err(LengthError { expected: UNAME_LEN, actual: n });
    }
    let mut field: [u8; UNAME_LEN] = [0u8; UNAME_LEN];
    let mut i: usize = 0;
    while i < n
        invariant
            i <= n <= UNAME_LEN,
            n == bytes@.len(),
            forall|j: int| 0 <= j < i ==> field@[j] == bytes@[j],
            forall|j: int| i <= j < UNAME_LEN ==> field@[j] == 0u8,
        decreases n - i,
    {
        field[i] = bytes[i];
        i += 1;
    }
    assert(field@ =~= zero_padded(name.spec_bytes(), UNAME_LEN as nat));
    Ok(field)
}

/// Overwrites a username field with `name`, zero-padded. A name wider than
/// the field is refused and leaves the field as it was.
pub fn set_uname(target: &mut [u8; UNAME_LEN], name: &str) -> (r: Result<(), LengthError>)
    ensures
        name.spec_bytes().len() <= UNAME_LEN ==> r is Ok && final(target)@ == zero_padded(
            name.spec_bytes(),
            UNAME_LEN as nat,
        ),
        name.spec_bytes().len() > UNAME_LEN ==> *final(target) == *old(target) && r == Err::<
            (),
            LengthError,
        >(LengthError { expected: UNAME_LEN, actual: name.spec_bytes().len() as usize }),
{
    match encode_uname(name) {
        Ok(field) => {
            *target = field;
            Ok(())
        },
        Err(e) => Err(e),
    }
}

/// Number of bytes of a username field that are text: everything before the
/// first zero byte.
pub fn uname_text_len(uname: &[u8; UNAME_LEN]) -> (k: usize)
    ensures
        k == text_len(uname@),
        k <= UNAME_LEN,
{
    let mut i: usize = 0;
    while i < UNAME_LEN && uname[i] != 0
        invariant
            i <= UNAME_LEN,
            forall|j: int| 0 <= j < i ==> uname@[j] != 0,
        decreases UNAME_LEN - i,
    {
        i += 1;
    }
    proof {
        lemma_text_len_unique(uname@, i as int);
    }
    i
}

/// What `String::from_utf8_lossy` makes of a run of bytes: the text that
/// they encode in UTF-8, with a replacement character for every part that
/// is no valid UTF-8.
pub uninterp spec fn utf8_lossy(bytes: Seq<u8>) -> Seq<char>;

/// Calls `String::from_utf8_lossy` and copies what it returns into a
/// `String`. Trusted: that the text depends on the bytes alone, and that
/// bytes which are valid UTF-8 give the text that they encode.
#[verifier::external_body]
fn string_from_utf8_lossy(bytes: &[u8]) -> (text: String)
    ensures
        text@ == utf8_lossy(bytes@),
        valid_utf8(bytes@) ==> text@ == decode_utf8(bytes@),
{
    String::from_utf8_lossy(bytes).into_owned()
}

/// The text of a username field: the bytes before the first zero byte,
/// read as UTF-8. Where they are no valid UTF-8, every part that is not
/// reads as a replacement character.
pub open spec fn uname_text(field: Seq<u8>) -> Seq<char> {
    let text = field.take(text_len(field) as int);
    if valid_utf8(text) {
        decode_utf8(text)
    } else {
        utf8_lossy(text)
    }
}

/// A name that fits a username field and holds no zero byte reads back
/// from the field as it was written: the padding is not part of the text.
pub proof fn lemma_uname_text_of_padded(name: Seq<char>)
    requires
        encode_utf8(name).len() <= UNAME_LEN,
        forall|i: int| 0 <= i < encode_utf8(name).len() ==> encode_utf8(name)[i] != 0,
    ensures
        text_len(zero_padded(encode_utf8(name), UNAME_LEN as nat)) == encode_utf8(name).len(),
        uname_text(zero_padded(encode_utf8(name), UNAME_LEN as nat)) == name,
{
    let bytes = encode_utf8(name);
    let field = zero_padded(bytes, UNAME_LEN as nat);
    lemma_text_len_unique(field, bytes.len() as int);
    assert(field.take(bytes.len() as int) =~= bytes);
    vstd::utf8::encode_utf8_valid_utf8(name);
    vstd::utf8::encode_utf8_decode_utf8(name);
}

/// The username that a field holds, as text: the bytes before the first
/// zero byte, read as UTF-8.
pub fn uname_to_string(uname: [u8; UNAME_LEN]) -> (text: String)
    ensures
        text@ == uname_text(uname@),
{
    let end: usize = uname_text_len(&uname);
    let name = vstd::slice::slice_subrange(uname.as_slice(), 0, end);
    string_from_utf8_lossy(name)
}

/// The character for a value below sixteen in hexadecimal, lower case.
pub open spec fn hex_digit(nibble: u8) -> char {
    if nibble == 0 {
        '0'
    } else if nibble == 1 {
        '1'
    } else if nibble == 2 {
        '2'
    } else if nibble == 3 {
        '3'
    } else if nibble == 4 {
        '4'
    } else if nibble == 5 {
        '5'
    } else if nibble == 6 {
        '6'
    } else if nibble == 7 {
        '7'
    } else if nibble == 8 {
        '8'
    } else if nibble == 9 {
        '9'
    } else if nibble == 10 {
        'a'
    } else if nibble == 11 {
        'b'
    } else if nibble == 12 {
        'c'
    } else if nibble == 13 {
        'd'
    } else if nibble == 14 {
        'e'
    } else {
        'f'
    }
}

/// Two hexadecimal digits for every byte, in order.
pub open spec fn hex_of(bytes: Seq<u8>) -> Seq<char>
    decreases bytes.len(),
{
    if bytes.len() == 0 {
        Seq::empty()
    } else {
        hex_of(bytes.drop_last()) + seq![
            hex_digit(bytes.last() / 16),
            hex_digit(bytes.last() % 16),
        ]
    }
}

/// The text of one hexadecimal digit.
fn hex_digit_str(nibble: u8) -> (digit: &'static str)
    requires
        nibble < 16,
    ensures
        digit@ == seq![hex_digit(nibble)],
{
    proof {
        reveal_strlit("0");
        reveal_strlit("1");
        reveal_strlit("2");
        reveal_strlit("3");
        reveal_strlit("4");
        reveal_strlit("5");
        reveal_strlit("6");
        reveal_strlit("7");
        reveal_strlit("8");
        reveal_strlit("9");
        reveal_strlit("a");
        reveal_strlit("b");
        reveal_strlit("c");
        reveal_strlit("d");
        reveal_strlit("e");
        reveal_strlit("f");
    }
    let digit = match nibble {
        0 => "0",
        1 => "1",
        2 => "2",
        3 => "3",
        4 => "4",
        5 => "5",
        6 => "6",
        7 => "7",
        8 => "8",
        9 => "9",
        10 => "a",
        11 => "b",
        12 => "c",
        13 => "d",
        14 => "e",
        _ => "f",
    };
    assert(digit@ =~= seq![hex_digit(nibble)]);
    digit
}

/// A token as text: `0x`, then two hexadecimal digits for every byte.
pub fn token_to_string(token: [u8; TOKEN_LEN]) -> (text: String)
    ensures
        text@ == "0x"@ + hex_of(token@),
{
    let mut result = String::from_str("0x");
    let mut i: usize = 0;
    assert(token@.take(0) =~= Seq::empty());
    assert(result@ =~= "0x"@ + hex_of(token@.take(0)));
    while i < TOKEN_LEN
        invariant
            i <= TOKEN_LEN,
            result@ == "0x"@ + hex_of(token@.take(i as int)),
        decreases TOKEN_LEN - i,
    {
        let byte: u8 = token[i];
        let ghost before = result@;
        result.append(hex_digit_str(byte / 16));
        result.append(hex_digit_str(byte % 16));
        proof {
            let next = token@.take(i + 1);
            assert(next.drop_last() =~= token@.take(i as int));
            assert(next.last() == byte);
            assert(result@ =~= "0x"@ + hex_of(next));
        }
        i += 1;
    }
    assert(token@.take(TOKEN_LEN as int) =~= token@);
    result
}

/// A fresh token: thirty-two bytes from `rand::thread_rng`, by `Rng::gen`.
/// Nothing is known of the bytes.
#[verifier::external_body]
pub fn generate_token() -> (token: [u8; TOKEN_LEN]) {
    let mut rng = rand::thread_rng();
    rand::Rng::gen(&mut rng)
}

} // verus!
