//! The packet: the envelope in which every message travels.
//!
//! ```text
//! method: u8 | msg_length: u32 | message: bytes[msg_length]
//! ```

use vstd::prelude::*;
use crate::errors::{FrameError, LengthError};
use crate::field_lens::{METHOD_LEN, MSGLEN_LEN};
use crate::wire::{
    be_bytes, be_value, lemma_be_value_of_bytes, push_field, u32_from_be_bytes, u32_to_be_bytes,
};

verus! {

/// One message with the tag that tells its kind.
#[derive(Debug, Clone, PartialEq, Eq)]
pub struct Packet {
    /// The tag of the message's kind.
    pub method: u8,
    /// Number of bytes of the message, as written in the length prefix.
    pub msg_length: u32,
    /// The message in its wire form.
    pub msg_buffer: Vec<u8>,
}

/// What a packet holds, as mathematical values.
pub ghost struct PacketView {
    pub method: u8,
    pub msg_length: u32,
    pub msg_buffer: Seq<u8>,
}

impl View for Packet {
    type V = PacketView;

    open spec fn view(&self) -> PacketView {
        PacketView {
            method: self.method,
            msg_length: self.msg_length,
            msg_buffer: self.msg_buffer@,
        }
    }
}

/// Size of the part of a packet that comes before the message.
pub open spec fn packet_fixed_size() -> nat {
    (METHOD_LEN + MSGLEN_LEN) as nat
}

impl PacketView {
    /// The length prefix counts the message.
    pub open spec fn wf(self) -> bool {
        self.msg_length == self.msg_buffer.len()
    }

    /// The packet on the wire.
    pub open spec fn wire(self) -> Seq<u8> {
        seq![self.method] + be_bytes(self.msg_length) + self.msg_buffer
    }
}

/// The packet that a buffer holds.
///
/// The buffer must hold the packet and nothing else. Where it ends early,
/// in the fixed part or in the message, the frame is incomplete and more
/// bytes are to be read. Where it goes on after the declared length, the
/// frame is malformed.
pub open spec fn parse_packet(bytes: Seq<u8>) -> Result<PacketView, FrameError> {
    let fixed = packet_fixed_size() as int;
    let declared = be_value(bytes.subrange(1, 5));
    let available = bytes.len() - fixed;
    if bytes.len() < fixed {
        Err(
            FrameError::Incomplete(
                LengthError { expected: fixed as usize, actual: bytes.len() as usize },
            ),
        )
    } else if available < declared {
        Err(
            FrameError::Incomplete(
                LengthError { expected: declared as usize, actual: available as usize },
            ),
        )
    } else if available > declared {
        Err(
            FrameError::Malformed(
                LengthError { expected: declared as usize, actual: available as usize },
            ),
        )
    } else {
        Ok(
            PacketView {
                method: bytes[0],
                msg_length: declared,
                msg_buffer: bytes.subrange(fixed, bytes.len() as int),
            },
        )
    }
}

/// Framing any message of a length that the prefix can count, under any
/// tag, and reading the frame back gives the same tag and the same message.
pub proof fn lemma_packet_roundtrip(method: u8, message: Seq<u8>)
    requires
        message.len() <= u32::MAX,
    ensures
        parse_packet(
            (PacketView { method, msg_length: message.len() as u32, msg_buffer: message }).wire(),
        ) == Ok::<PacketView, FrameError>(
            PacketView { method, msg_length: message.len() as u32, msg_buffer: message },
        ),
{
    let p = PacketView { method, msg_length: message.len() as u32, msg_buffer: message };
    let bytes = p.wire();
    lemma_be_value_of_bytes(p.msg_length);
    assert(bytes.subrange(1, 5) =~= be_bytes(p.msg_length));
    assert(bytes.subrange(5, bytes.len() as int) =~= message);
}

/// A packet that was read from a buffer has a length prefix that counts
/// its message, and writing it out gives the buffer back.
pub proof fn lemma_packet_parsed(bytes: Seq<u8>)
    requires
        parse_packet(bytes) is Ok,
    ensures
        parse_packet(bytes)->Ok_0.wf(),
        parse_packet(bytes)->Ok_0.msg_length == parse_packet(bytes)->Ok_0.msg_buffer.len(),
        parse_packet(bytes)->Ok_0.wire() == bytes,
{
    crate::wire::lemma_be_bytes_of_value(bytes.subrange(1, 5));
    assert(parse_packet(bytes)->Ok_0.wire() =~= bytes);
}

impl Packet {
    /// The packet with tag `meth` around the message `msg_buf` of `len`
    /// bytes. Refused where `len` is not the length of `msg_buf`.
    pub fn new(meth: u8, len: u32, msg_buf: Vec<u8>) -> (r: Result<Packet, LengthError>)
        ensures
            match r {
                Ok(p) => len == msg_buf@.len() && p@.wf() && p@ == (PacketView {
                    method: meth,
                    msg_length: len,
                    msg_buffer: msg_buf@,
                }),
                Err(e) => len != msg_buf@.len() && e == (LengthError {
                    expected: len as usize,
                    actual: msg_buf@.len() as usize,
                }),
            },
    {
        if len as usize != msg_buf.len() {
            return Err(LengthError { expected: len as usize, actual: msg_buf.len() });
        }
        Ok(Packet { method: meth, msg_length: len, msg_buffer: msg_buf })
    }

    /// The packet with tag `meth` around the message `msg_buf`. Refused
    /// where the message is longer than the length prefix can count.
    pub fn wrap(meth: u8, msg_buf: Vec<u8>) -> (r: Result<Packet, LengthError>)
        ensures
            match r {
                Ok(p) => msg_buf@.len() <= u32::MAX && p@.wf() && p@ == (PacketView {
                    method: meth,
                    msg_length: msg_buf@.len() as u32,
                    msg_buffer: msg_buf@,
                }),
                Err(e) => msg_buf@.len() > u32::MAX && e == (LengthError {
                    expected: u32::MAX as usize,
                    actual: msg_buf@.len() as usize,
                }),
            },
    {
        if msg_buf.len() > u32::MAX as usize {
            return Err(LengthError { expected: u32::MAX as usize, actual: msg_buf.len() });
        }
        let len: u32 = msg_buf.len() as u32;
        Ok(Packet { method: meth, msg_length: len, msg_buffer: msg_buf })
    }

    /// The packet on the wire: tag, length prefix, message.
    pub fn serialize(&self) -> (buffer: Vec<u8>)
        ensures
            buffer@ == self@.wire(),
    {
        let mut buffer: Vec<u8> = Vec::new();
        buffer.push(self.method);
        let prefix = u32_to_be_bytes(self.msg_length);
        push_field(&mut buffer, &prefix);
        buffer.extend_from_slice(self.msg_buffer.as_slice());
        assert(buffer@ =~= self@.wire());
        buffer
    }

    /// Reads the packet that `bytes` holds; `bytes` must end where the
    /// packet ends. Tells a buffer that ends early, which more reading can
    /// complete, from one that is longer than the packet declares.
    pub fn deserialize(bytes: &[u8]) -> (r: Result<Packet, FrameError>)
        ensures
            match r {
                Ok(p) => parse_packet(bytes@) == Ok::<PacketView, FrameError>(p@) && p@.wf()
                    && p.msg_length == p.msg_buffer@.len(),
                Err(e) => parse_packet(bytes@) == Err::<PacketView, FrameError>(e),
            },
            bytes@.len() < packet_fixed_size() ==> r is Err,
    {
        let fixed: usize = Self::fixed_size();
        if bytes.len() < fixed {
            return Err(
                FrameError::Incomplete(LengthError { expected: fixed, actual: bytes.len() }),
            );
        }
        let method: u8 = bytes[0];
        let msg_length: u32 = u32_from_be_bytes(bytes, METHOD_LEN);
        let available: usize = bytes.len() - fixed;
        if available < msg_length as usize {
            return Err(
                FrameError::Incomplete(
                    LengthError { expected: msg_length as usize, actual: available },
                ),
            );
        }
        if available > msg_length as usize {
            return Err(
                FrameError::Malformed(
                    LengthError { expected: msg_length as usize, actual: available },
                ),
            );
        }
        let message = vstd::slice::slice_subrange(bytes, fixed, bytes.len());
        let mut msg_buffer: Vec<u8> = Vec::new();
        msg_buffer.extend_from_slice(message);
        assert(msg_buffer@ =~= message@);
        Ok(Packet { method, msg_length, msg_buffer })
    }

    /// Number of bytes of the packet's own part: the tag and the length
    /// prefix, without the message.
    pub fn length(&self) -> (n: usize)
        ensures
            n == packet_fixed_size(),
            n == 5,
    {
        Self::fixed_size()
    }

    /// Number of bytes before the message.
    pub fn fixed_size() -> (n: usize)
        ensures
            n == packet_fixed_size(),
            n == 5,
    {
        METHOD_LEN + MSGLEN_LEN
    }
}

} // verus!
