//! Widths, in bytes, of the fixed fields shared by all message kinds.

use vstd::prelude::*;

verus! {

/// A username field: UTF-8 text, zero-padded on the right.
pub const UNAME_LEN: usize = 50;

/// A big-endian length prefix.
pub const MSGLEN_LEN: usize = 4;

/// An access token: opaque bytes.
pub const TOKEN_LEN: usize = 32;

/// The method tag at the start of a packet.
pub const METHOD_LEN: usize = 1;

/// A status code.
pub const ERR_CODE_LEN: usize = 1;

/// Size of the buffer a transport should offer when it reads one packet.
pub const MAX_PACKET_LEN: usize = 1024;

} // verus!
