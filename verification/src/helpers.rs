//! Helpers of the client.

use vstd::prelude::*;

verus! {

/// The SHA-256 digest of a run of bytes, written as hexadecimal text in
/// lower case.
pub uninterp spec fn sha256_hex(input: Seq<u8>) -> Seq<char>;

/// The SHA-256 digest of `input` as hexadecimal text. Calls
/// `sha256::digest`. Trusted: that the text depends on the bytes alone.
#[verifier::external_body]
pub fn sha256_from_bytes(input: Vec<u8>) -> (text: String)
    ensures
        text@ == sha256_hex(input@),
{
    sha256::digest(input)
}

} // verus!
