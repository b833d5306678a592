//! Error values returned by the codecs, the packet framer and the log reader.

use vstd::prelude::*;
use vstd::string::StringExecFns;

verus! {

/// A length that does not fit: a buffer shorter than a message needs, a
/// declared length that the buffer does not hold, or a field wider than its slot.
#[derive(Debug, Clone, Copy, PartialEq, Eq, Structural)]
pub struct LengthError {
    /// The length that was called for.
    pub expected: usize,
    /// The length that was found.
    pub actual: usize,
}

impl LengthError {
    /// Human-readable description.
    pub fn to_string(&self) -> (s: String)
        ensures
            s@ == "incorrect message/packet length specified"@,
    {
        String::from_str("incorrect message/packet length specified")
    }
}

/// Why a buffer could not be read as one packet.
#[derive(Debug, Clone, Copy, PartialEq, Eq, Structural)]
pub enum FrameError {
    /// The buffer ends before the packet does: more bytes must be read.
    /// `expected` is the least length that is needed, `actual` what is there.
    Incomplete(LengthError),
    /// The buffer holds more bytes than the packet declares: reading on cannot mend it.
    Malformed(LengthError),
}

/// Why a log could not be read.
#[derive(Debug, Clone, Copy, PartialEq, Eq, Structural)]
pub enum LogError {
    /// The record starting at byte `offset` does not begin with the delimiter.
    BadDelimiter { offset: usize },
    /// The record starting at byte `offset` declares an empty payload.
    EmptyPayload { offset: usize },
}

/// Why a peer could not be added to the connection index.
#[derive(Debug, Clone, Copy, PartialEq, Eq, Structural)]
pub enum ConnError {
    /// The username is wider than a username field.
    TooLong(LengthError),
    /// The username holds a zero byte, at byte `at` of its UTF-8 form. A
    /// username field would read back as the text before that byte.
    ZeroByte { at: usize },
    /// The index already holds the username.
    AlreadyConnected,
}

} // verus!
