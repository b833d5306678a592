//! The chat message: the one message kind with a payload of variable length.
//!
//! ```text
//! msg_length: u32 | sender: bytes[50] | receiver: bytes[50] | payload: bytes[msg_length]
//! ```

use vstd::prelude::*;
use vstd::string::StringSliceAdditionalSpecFns;
use crate::errors::LengthError;
use crate::field_lens::{MSGLEN_LEN, UNAME_LEN};
use crate::shared::encode_uname;
use crate::wire::{
    be_bytes, be_value, lemma_be_bytes_of_value, lemma_be_value_of_bytes, push_field, read_field,
    u32_from_be_bytes, u32_to_be_bytes, zero_padded,
};

verus! {

/// A chat message between two users.
#[derive(Debug, Clone, PartialEq, Eq)]
pub struct ChatMessage {
    /// Number of payload bytes, as written in the length prefix.
    pub msg_length: u32,
    /// The sender's username field.
    pub send_uname: [u8; UNAME_LEN],
    /// The receiver's username field.
    pub recv_uname: [u8; UNAME_LEN],
    /// The payload.
    pub msg_buffer: Vec<u8>,
}

/// What a chat message holds, as mathematical values.
pub ghost struct ChatMessageView {
    pub msg_length: u32,
    pub send_uname: Seq<u8>,
    pub recv_uname: Seq<u8>,
    pub msg_buffer: Seq<u8>,
}

impl View for ChatMessage {
    type V = ChatMessageView;

    open spec fn view(&self) -> ChatMessageView {
        ChatMessageView {
            msg_length: self.msg_length,
            send_uname: self.send_uname@,
            recv_uname: self.recv_uname@,
            msg_buffer: self.msg_buffer@,
        }
    }
}

/// Size of the part of a chat message that comes before the payload.
pub open spec fn chat_fixed_size() -> nat {
    (MSGLEN_LEN + 2 * UNAME_LEN) as nat
}

impl ChatMessageView {
    /// The length prefix counts the payload, and both names fill their fields.
    pub open spec fn wf(self) -> bool {
        &&& self.send_uname.len() == UNAME_LEN
        &&& self.recv_uname.len() == UNAME_LEN
        &&& self.msg_length == self.msg_buffer.len()
    }

    /// The message on the wire.
    pub open spec fn wire(self) -> Seq<u8> {
        be_bytes(self.msg_length) + self.send_uname + self.recv_uname + self.msg_buffer
    }
}

/// The message that a buffer starts with, if it holds a whole one. Bytes
/// after the declared payload are not looked at.
pub open spec fn parse_chat_message(bytes: Seq<u8>) -> Result<ChatMessageView, LengthError> {
    let fixed = chat_fixed_size() as int;
    let declared = be_value(bytes.subrange(0, 4));
    if bytes.len() < fixed {
        Err(LengthError { expected: fixed as usize, actual: bytes.len() as usize })
    } else if bytes.len() - fixed < declared {
        Err(LengthError { expected: declared as usize, actual: (bytes.len() - fixed) as usize })
    } else {
        Ok(
            ChatMessageView {
                msg_length: declared,
                send_uname: bytes.subrange(4, 54),
                recv_uname: bytes.subrange(54, 104),
                msg_buffer: bytes.subrange(fixed, fixed + declared),
            },
        )
    }
}

/// Parsing the wire form of a well-formed message, with anything after it,
/// gives the message back.
pub proof fn lemma_chat_message_roundtrip(m: ChatMessageView, rest: Seq<u8>)
    requires
        m.wf(),
    ensures
        m.wire().len() == chat_fixed_size() + m.msg_length,
        parse_chat_message(m.wire() + rest) == Ok::<ChatMessageView, LengthError>(m),
{
    let bytes = m.wire() + rest;
    lemma_be_value_of_bytes(m.msg_length);
    assert(bytes.subrange(0, 4) =~= be_bytes(m.msg_length));
    let parsed = parse_chat_message(bytes)->Ok_0;
    assert(parsed.send_uname =~= m.send_uname);
    assert(parsed.recv_uname =~= m.recv_uname);
    assert(parsed.msg_buffer =~= m.msg_buffer);
}

/// Writing out what was parsed gives back the bytes that were read: the
/// buffer up to the end of the declared payload.
pub proof fn lemma_chat_message_bytes_roundtrip(bytes: Seq<u8>)
    requires
        parse_chat_message(bytes) is Ok,
    ensures
        parse_chat_message(bytes)->Ok_0.wf(),
        parse_chat_message(bytes)->Ok_0.wire() == bytes.take(
            chat_fixed_size() + be_value(bytes.subrange(0, 4)),
        ),
{
    let m = parse_chat_message(bytes)->Ok_0;
    lemma_be_bytes_of_value(bytes.subrange(0, 4));
    assert(m.wire() =~= bytes.take(chat_fixed_size() + be_value(bytes.subrange(0, 4))));
}

impl ChatMessage {
    /// A message with zeroed names and no payload.
    pub fn empty() -> (m: ChatMessage)
        ensures
            m@.wf(),
            m.msg_length == 0,
            m.send_uname@ == zero_padded(Seq::empty(), UNAME_LEN as nat),
            m.recv_uname@ == zero_padded(Seq::empty(), UNAME_LEN as nat),
            m.msg_buffer@ == Seq::<u8>::empty(),
    {
        let m = ChatMessage {
            msg_length: 0,
            send_uname: [0u8; UNAME_LEN],
            recv_uname: [0u8; UNAME_LEN],
            msg_buffer: Vec::new(),
        };
        assert(m.send_uname@ =~= zero_padded(Seq::empty(), UNAME_LEN as nat));
        assert(m.recv_uname@ =~= zero_padded(Seq::empty(), UNAME_LEN as nat));
        m
    }

    /// The message from `sender` to `receiver` with the UTF-8 bytes of `msg`
    /// as payload. Refused, in this order: a sender name wider than its
    /// field, a receiver name wider than its field, a payload longer than the
    /// length prefix can count.
    pub fn new(sender: &str, receiver: &str, msg: &str) -> (r: Result<ChatMessage, LengthError>)
        ensures
            match r {
                Ok(m) => chat_message_new_error(
                    sender.spec_bytes(),
                    receiver.spec_bytes(),
                    msg.spec_bytes(),
                ) is None && m@.wf() && m@ == (ChatMessageView {
                    msg_length: msg.spec_bytes().len() as u32,
                    send_uname: zero_padded(sender.spec_bytes(), UNAME_LEN as nat),
                    recv_uname: zero_padded(receiver.spec_bytes(), UNAME_LEN as nat),
                    msg_buffer: msg.spec_bytes(),
                }),
                Err(e) => chat_message_new_error(
                    sender.spec_bytes(),
                    receiver.spec_bytes(),
                    msg.spec_bytes(),
                ) == Some(e),
            },
    {
        let send_uname = match encode_uname(sender) {
            Ok(field) => field,
            Err(e) => { return Err(e); },
        };
        let recv_uname = match encode_uname(receiver) {
            Ok(field) => field,
            Err(e) => { return Err(e); },
        };
        let payload = msg.as_bytes();
        let n: usize = payload.len();
        if n > u32::MAX as usize {
            return Err(LengthError { expected: u32::MAX as usize, actual: n });
        }
        let mut msg_buffer: Vec<u8> = Vec::new();
        msg_buffer.extend_from_slice(payload);
        assert(msg_buffer@ =~= msg.spec_bytes());
        Ok(ChatMessage { msg_length: n as u32, send_uname, recv_uname, msg_buffer })
    }

    /// The message on the wire: length prefix, sender, receiver, payload.
    pub fn serialize(&self) -> (buffer: Vec<u8>)
        ensures
            buffer@ == self@.wire(),
    {
        let mut buffer: Vec<u8> = Vec::new();
        let prefix = u32_to_be_bytes(self.msg_length);
        push_field(&mut buffer, &prefix);
        push_field(&mut buffer, &self.send_uname);
        push_field(&mut buffer, &self.recv_uname);
        buffer.extend_from_slice(self.msg_buffer.as_slice());
        assert(buffer@ =~= self@.wire());
        buffer
    }

    /// Reads the message that `bytes` starts with. Fails when `bytes` is
    /// shorter than the fixed part, or holds fewer payload bytes than the
    /// length prefix declares; bytes after the payload are ignored.
    pub fn deserialize(bytes: &[u8]) -> (r: Result<ChatMessage, LengthError>)
        ensures
            r is Ok <==> parse_chat_message(bytes@) is Ok,
            r is Ok ==> r->Ok_0@ == parse_chat_message(bytes@)->Ok_0 && r->Ok_0@.wf(),
            r is Err ==> r->Err_0 == parse_chat_message(bytes@)->Err_0,
            bytes@.len() < chat_fixed_size() ==> r is Err,
    {
        let fixed: usize = Self::fixed_size();
        if bytes.len() < fixed {
            return Err(LengthError { expected: fixed, actual: bytes.len() });
        }
        let msg_length: u32 = u32_from_be_bytes(bytes, 0);
        let available: usize = bytes.len() - fixed;
        if available < msg_length as usize {
            return Err(LengthError { expected: msg_length as usize, actual: available });
        }
        let send_uname: [u8; UNAME_LEN] = read_field(bytes, MSGLEN_LEN);
        let recv_uname: [u8; UNAME_LEN] = read_field(bytes, MSGLEN_LEN + UNAME_LEN);
        let payload = vstd::slice::slice_subrange(bytes, fixed, fixed + msg_length as usize);
        let mut msg_buffer: Vec<u8> = Vec::new();
        msg_buffer.extend_from_slice(payload);
        assert(msg_buffer@ =~= payload@);
        Ok(ChatMessage { msg_length, send_uname, recv_uname, msg_buffer })
    }

    /// Number of bytes that `serialize` produces: the fixed part and the
    /// payload as it is held, whatever the length field says.
    pub fn length(&self) -> (n: usize)
        requires
            chat_fixed_size() + self.msg_buffer@.len() <= usize::MAX,
        ensures
            n == self@.wire().len(),
            n == chat_fixed_size() + self.msg_buffer@.len(),
            self@.wf() ==> n == chat_fixed_size() + self.msg_length,
    {
        Self::fixed_size() + self.msg_buffer.len()
    }

    /// Number of bytes before the payload.
    pub fn fixed_size() -> (n: usize)
        ensures
            n == chat_fixed_size(),
            n == 104,
    {
        MSGLEN_LEN + (2 * UNAME_LEN)
    }
}

/// The error with which `ChatMessage::new` refuses these UTF-8 forms of
/// sender, receiver and payload; `None` where it accepts them.
pub open spec fn chat_message_new_error(sender: Seq<u8>, receiver: Seq<u8>, msg: Seq<u8>) -> Option<
    LengthError,
> {
    if sender.len() > UNAME_LEN {
        Some(LengthError { expected: UNAME_LEN, actual: sender.len() as usize })
    } else if receiver.len() > UNAME_LEN {
        Some(LengthError { expected: UNAME_LEN, actual: receiver.len() as usize })
    } else if msg.len() > u32::MAX {
        Some(LengthError { expected: u32::MAX as usize, actual: msg.len() as usize })
    } else {
        None
    }
}

} // verus!
