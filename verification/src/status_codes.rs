//! The status code that a response carries.

use vstd::prelude::*;
use vstd::string::StringExecFns;

verus! {

/// The outcome that a response reports.
#[derive(Debug, Clone, Copy, PartialEq, Eq, Structural)]
pub enum StatusCode {
    Success,
    Failure,
    /// Any byte that is no known code.
    Invalid,
}

/// The code that a byte stands for.
pub open spec fn status_code_of(status_code: u8) -> StatusCode {
    match status_code {
        0 => StatusCode::Success,
        1 => StatusCode::Failure,
        _ => StatusCode::Invalid,
    }
}

impl StatusCode {
    /// The byte that stands for this code on the wire.
    pub open spec fn byte(self) -> u8 {
        match self {
            StatusCode::Success => 0,
            StatusCode::Failure => 1,
            StatusCode::Invalid => 2,
        }
    }

    /// The byte that stands for this code on the wire.
    pub fn to_byte(self) -> (b: u8)
        ensures
            b == self.byte(),
            status_code_of(b) == self,
    {
        match self {
            StatusCode::Success => 0,
            StatusCode::Failure => 1,
            StatusCode::Invalid => 2,
        }
    }

    /// The code's name.
    pub fn to_string(&self) -> (s: String)
        ensures
            s@ == (match *self {
                StatusCode::Success => "Success"@,
                StatusCode::Failure => "Failure"@,
                StatusCode::Invalid => "Invalid"@,
            }),
    {
        match self {
            StatusCode::Success => String::from_str("Success"),
            StatusCode::Failure => String::from_str("Failure"),
            StatusCode::Invalid => String::from_str("Invalid"),
        }
    }
}

/// Every code is what its byte stands for, and every byte up to that of
/// `Invalid` is the byte of the code it stands for.
pub proof fn lemma_status_code_roundtrip(code: StatusCode, b: u8)
    ensures
        status_code_of(code.byte()) == code,
        b <= 2 ==> status_code_of(b).byte() == b,
{
}

/// The code that the byte `status_code` stands for. A byte that is no known
/// code is no error: it gives `Invalid`.
pub fn decode_status_code(status_code: u8) -> (code: StatusCode)
    ensures
        code == status_code_of(status_code),
{
    match status_code {
        0 => StatusCode::Success,
        1 => StatusCode::Failure,
        _ => StatusCode::Invalid,
    }
}

} // verus!
