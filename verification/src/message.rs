//! The client's own record of a chat message. On the wire it is laid out
//! as a `ChatMessage` is; unlike one, it can be filled in field by field.

use vstd::prelude::*;
use vstd::string::StringSliceAdditionalSpecFns;
use crate::chat_message::{
    chat_fixed_size, chat_message_new_error, parse_chat_message, ChatMessage, ChatMessageView,
};
use crate::errors::LengthError;
use crate::field_lens::{MSGLEN_LEN, UNAME_LEN};
use crate::shared::set_uname;
use crate::wire::zero_padded;

verus! {

/// A chat message as the client keeps it.
#[derive(Debug, Clone, PartialEq, Eq)]
pub struct Message {
    /// Number of payload bytes.
    pub msglen: u32,
    /// The sender's username field.
    pub send_uname: [u8; UNAME_LEN],
    /// The receiver's username field.
    pub recv_uname: [u8; UNAME_LEN],
    /// The payload.
    pub message: Vec<u8>,
}

/// How many bytes can still be added to a payload before the length
/// prefix can no longer count it.
pub open spec fn payload_room(payload: Seq<u8>) -> nat {
    if payload.len() > u32::MAX {
        0
    } else {
        (u32::MAX - payload.len()) as nat
    }
}

impl View for Message {
    type V = ChatMessageView;

    open spec fn view(&self) -> ChatMessageView {
        ChatMessageView {
            msg_length: self.msglen,
            send_uname: self.send_uname@,
            recv_uname: self.recv_uname@,
            msg_buffer: self.message@,
        }
    }
}

impl Message {
    /// A message with zeroed names and no payload.
    pub fn empty() -> (m: Message)
        ensures
            m@.wf(),
            m@ == (ChatMessageView {
                msg_length: 0,
                send_uname: zero_padded(Seq::empty(), UNAME_LEN as nat),
                recv_uname: zero_padded(Seq::empty(), UNAME_LEN as nat),
                msg_buffer: Seq::empty(),
            }),
    {
        let m = Message {
            msglen: 0,
            send_uname: [0u8; UNAME_LEN],
            recv_uname: [0u8; UNAME_LEN],
            message: Vec::new(),
        };
        assert(m.send_uname@ =~= zero_padded(Seq::empty(), UNAME_LEN as nat));
        assert(m.recv_uname@ =~= zero_padded(Seq::empty(), UNAME_LEN as nat));
        m
    }

    /// The message from `s_uname` to `r_uname` with the UTF-8 bytes of
    /// `msg` as payload. Refused, in this order: a sender name wider than
    /// its field, a receiver name wider than its field, a payload longer
    /// than the length prefix can count.
    pub fn new(s_uname: &str, r_uname: &str, msg: &str) -> (r: Result<Message, LengthError>)
        ensures
            match r {
                Ok(m) => chat_message_new_error(
                    s_uname.spec_bytes(),
                    r_uname.spec_bytes(),
                    msg.spec_bytes(),
                ) is None && m@.wf() && m@ == (ChatMessageView {
                    msg_length: msg.spec_bytes().len() as u32,
                    send_uname: zero_padded(s_uname.spec_bytes(), UNAME_LEN as nat),
                    recv_uname: zero_padded(r_uname.spec_bytes(), UNAME_LEN as nat),
                    msg_buffer: msg.spec_bytes(),
                }),
                Err(e) => chat_message_new_error(
                    s_uname.spec_bytes(),
                    r_uname.spec_bytes(),
                    msg.spec_bytes(),
                ) == Some(e),
            },
    {
        let mut message = Message::empty();
        match message.set_send_uname(s_uname) {
            Ok(()) => {},
            Err(e) => { return Err(e); },
        }
        match message.set_recv_uname(r_uname) {
            Ok(()) => {},
            Err(e) => { return Err(e); },
        }
        match message.set_message(msg) {
            Ok(()) => {},
            Err(e) => { return Err(e); },
        }
        assert(message.message@ =~= msg.spec_bytes());
        Ok(message)
    }

    /// The message on the wire: length prefix, sender, receiver, payload.
    pub fn serialize(&self) -> (buffer: Vec<u8>)
        ensures
            buffer@ == self@.wire(),
    {
        let mut buffer: Vec<u8> = Vec::new();
        let prefix = crate::wire::u32_to_be_bytes(self.msglen);
        crate::wire::push_field(&mut buffer, &prefix);
        crate::wire::push_field(&mut buffer, &self.send_uname);
        crate::wire::push_field(&mut buffer, &self.recv_uname);
        buffer.extend_from_slice(self.message.as_slice());
        assert(buffer@ =~= self@.wire());
        buffer
    }

    /// Reads the message that `bytes` starts with. Fails when `bytes` is
    /// shorter than the fixed part, or holds fewer payload bytes than the
    /// length prefix declares; bytes after the payload are ignored.
    pub fn deserialize(bytes: &[u8]) -> (r: Result<Message, LengthError>)
        ensures
            match r {
                Ok(m) => parse_chat_message(bytes@) == Ok::<ChatMessageView, LengthError>(m@)
                    && m@.wf(),
                Err(e) => parse_chat_message(bytes@) == Err::<ChatMessageView, LengthError>(e),
            },
            bytes@.len() < chat_fixed_size() ==> r is Err,
    {
        match ChatMessage::deserialize(bytes) {
            Ok(chat) => Ok(
                Message {
                    msglen: chat.msg_length,
                    send_uname: chat.send_uname,
                    recv_uname: chat.recv_uname,
                    message: chat.msg_buffer,
                },
            ),
            Err(e) => Err(e),
        }
    }

    /// Sets the sender to `new_send_uname`, zero-padded. A name wider than
    /// the field is refused and changes nothing.
    pub fn set_send_uname(&mut self, new_send_uname: &str) -> (r: Result<(), LengthError>)
        ensures
            final(self).msglen == old(self).msglen,
            final(self).recv_uname == old(self).recv_uname,
            final(self).message == old(self).message,
            new_send_uname.spec_bytes().len() <= UNAME_LEN ==> r is Ok && final(self).send_uname@
                == zero_padded(new_send_uname.spec_bytes(), UNAME_LEN as nat),
            new_send_uname.spec_bytes().len() > UNAME_LEN ==> final(self).send_uname == old(
                self,
            ).send_uname && r == Err::<(), LengthError>(
                LengthError {
                    expected: UNAME_LEN,
                    actual: new_send_uname.spec_bytes().len() as usize,
                },
            ),
    {
        set_uname(&mut self.send_uname, new_send_uname)
    }

    /// Sets the receiver to `new_recv_uname`, zero-padded. A name wider
    /// than the field is refused and changes nothing.
    pub fn set_recv_uname(&mut self, new_recv_uname: &str) -> (r: Result<(), LengthError>)
        ensures
            final(self).msglen == old(self).msglen,
            final(self).send_uname == old(self).send_uname,
            final(self).message == old(self).message,
            new_recv_uname.spec_bytes().len() <= UNAME_LEN ==> r is Ok && final(self).recv_uname@
                == zero_padded(new_recv_uname.spec_bytes(), UNAME_LEN as nat),
            new_recv_uname.spec_bytes().len() > UNAME_LEN ==> final(self).recv_uname == old(
                self,
            ).recv_uname && r == Err::<(), LengthError>(
                LengthError {
                    expected: UNAME_LEN,
                    actual: new_recv_uname.spec_bytes().len() as usize,
                },
            ),
    {
        set_uname(&mut self.recv_uname, new_recv_uname)
    }

    /// Appends the UTF-8 bytes of `message` to the payload and makes the
    /// length count the whole payload. Refused, with nothing changed, where
    /// the payload would be longer than the length prefix can count: the
    /// error then tells how many bytes there was room for.
    pub fn set_message(&mut self, message: &str) -> (r: Result<(), LengthError>)
        ensures
            final(self).send_uname == old(self).send_uname,
            final(self).recv_uname == old(self).recv_uname,
            old(self).message@.len() + message.spec_bytes().len() <= u32::MAX ==> r is Ok
                && final(self).message@ == old(self).message@ + message.spec_bytes()
                && final(self).msglen == final(self).message@.len(),
            old(self).message@.len() + message.spec_bytes().len() > u32::MAX ==> *final(self)
                == *old(self) && r == Err::<(), LengthError>(
                LengthError {
                    expected: payload_room(old(self).message@) as usize,
                    actual: message.spec_bytes().len() as usize,
                },
            ),
    {
        let added = message.as_bytes();
        let limit: usize = u32::MAX as usize;
        if self.message.len() > limit {
            return Err(LengthError { expected: 0, actual: added.len() });
        }
        let room: usize = limit - self.message.len();
        if added.len() > room {
            return Err(LengthError { expected: room, actual: added.len() });
        }
        self.message.extend_from_slice(added);
        self.msglen = self.message.len() as u32;
        Ok(())
    }

    /// Number of bytes before the payload.
    pub fn fixed_size() -> (n: usize)
        ensures
            n == chat_fixed_size(),
            n == 104,
    {
        MSGLEN_LEN + (2 * UNAME_LEN)
    }
}

} // verus!
