//! The kinds of message and the tags that name them in a packet.

use vstd::prelude::*;

verus! {

/// The kind of a message.
#[derive(Debug, Clone, Copy, PartialEq, Eq, Structural)]
pub enum MessageType {
    ChatMessage,
    VerifyReq,
    VerifyResp,
    SignupReq,
    SignupResp,
    C2cConnReq,
    C2cConnResp,
    /// Any tag that names no kind. A packet with such a tag is passed over.
    Invalid,
}

/// The kind that a tag names.
pub open spec fn message_type_of(index: u8) -> MessageType {
    match index {
        0 => MessageType::ChatMessage,
        1 => MessageType::VerifyReq,
        2 => MessageType::VerifyResp,
        3 => MessageType::SignupReq,
        4 => MessageType::SignupResp,
        5 => MessageType::C2cConnReq,
        6 => MessageType::C2cConnResp,
        _ => MessageType::Invalid,
    }
}

/// The tag under which a kind is sent.
pub open spec fn method_num_of(message_type: MessageType) -> u8 {
    match message_type {
        MessageType::ChatMessage => 0,
        MessageType::VerifyReq => 1,
        MessageType::VerifyResp => 2,
        MessageType::SignupReq => 3,
        MessageType::SignupResp => 4,
        MessageType::C2cConnReq => 5,
        MessageType::C2cConnResp => 6,
        MessageType::Invalid => 7,
    }
}

/// Every kind is named by its own tag, and every tag up to that of
/// `Invalid` is the tag of the kind it names.
pub proof fn lemma_method_num_roundtrip(message_type: MessageType, index: u8)
    ensures
        message_type_of(method_num_of(message_type)) == message_type,
        index <= 7 ==> method_num_of(message_type_of(index)) == index,
        index >= 7 <==> message_type_of(index) == MessageType::Invalid,
{
}

/// The kind that the tag `index` names; `Invalid` for a tag that names none.
pub fn method_num_to_message_type(index: u8) -> (message_type: MessageType)
    ensures
        message_type == message_type_of(index),
{
    match index {
        0 => MessageType::ChatMessage,
        1 => MessageType::VerifyReq,
        2 => MessageType::VerifyResp,
        3 => MessageType::SignupReq,
        4 => MessageType::SignupResp,
        5 => MessageType::C2cConnReq,
        6 => MessageType::C2cConnResp,
        _ => MessageType::Invalid,
    }
}

/// The tag under which messages of kind `message_type` are sent.
pub fn message_type_to_method_num(message_type: MessageType) -> (index: u8)
    ensures
        index == method_num_of(message_type),
        message_type_of(index) == message_type,
{
    match message_type {
        MessageType::ChatMessage => 0,
        MessageType::VerifyReq => 1,
        MessageType::VerifyResp => 2,
        MessageType::SignupReq => 3,
        MessageType::SignupResp => 4,
        MessageType::C2cConnReq => 5,
        MessageType::C2cConnResp => 6,
        MessageType::Invalid => 7,
    }
}

} // verus!
