//! From a packet to the message inside it.

use vstd::prelude::*;
use crate::chat_message::{parse_chat_message, ChatMessage, ChatMessageView};
use crate::connect::{
    parse_conn_req, parse_conn_resp, C2cConnReq, C2cConnReqView, C2cConnResp, C2cConnRespView,
};
use crate::errors::LengthError;
use crate::message_types::{message_type_of, method_num_to_message_type, MessageType};
use crate::packet::{Packet, PacketView};
use crate::signup::{parse_signup_req, parse_signup_resp, SignupReq, SignupResp, SignupRespView};
use crate::status_codes::StatusCode;
use crate::verify::{parse_verify_req, parse_verify_resp, VerifyReq, VerifyReqView, VerifyResp};

verus! {

/// A message of any kind.
#[derive(Debug, Clone, PartialEq, Eq)]
pub enum ProtocolMessage {
    ChatMessage(ChatMessage),
    VerifyReq(VerifyReq),
    VerifyResp(VerifyResp),
    SignupReq(SignupReq),
    SignupResp(SignupResp),
    C2cConnReq(C2cConnReq),
    C2cConnResp(C2cConnResp),
    /// What a packet with a tag that names no kind gives: nothing to
    /// process, and no reason to close the connection.
    Invalid,
}

/// What a message of any kind holds, as mathematical values.
pub ghost enum ProtocolMessageView {
    ChatMessage(ChatMessageView),
    VerifyReq(VerifyReqView),
    VerifyResp(StatusCode),
    SignupReq(Seq<u8>),
    SignupResp(SignupRespView),
    C2cConnReq(C2cConnReqView),
    C2cConnResp(C2cConnRespView),
    Invalid,
}

impl View for ProtocolMessage {
    type V = ProtocolMessageView;

    open spec fn view(&self) -> ProtocolMessageView {
        match self {
            ProtocolMessage::ChatMessage(m) => ProtocolMessageView::ChatMessage(m@),
            ProtocolMessage::VerifyReq(m) => ProtocolMessageView::VerifyReq(m@),
            ProtocolMessage::VerifyResp(m) => ProtocolMessageView::VerifyResp(m.status_code),
            ProtocolMessage::SignupReq(m) => ProtocolMessageView::SignupReq(m.cli_uname@),
            ProtocolMessage::SignupResp(m) => ProtocolMessageView::SignupResp(m@),
            ProtocolMessage::C2cConnReq(m) => ProtocolMessageView::C2cConnReq(m@),
            ProtocolMessage::C2cConnResp(m) => ProtocolMessageView::C2cConnResp(m@),
            ProtocolMessage::Invalid => ProtocolMessageView::Invalid,
        }
    }
}

/// The message inside a packet: the tag names the kind, and the codec of
/// that kind reads the packet's bytes. A tag that names no kind gives
/// `Invalid`, whatever the bytes are.
pub open spec fn message_of(packet: PacketView) -> Result<ProtocolMessageView, LengthError> {
    let bytes = packet.msg_buffer;
    match message_type_of(packet.method) {
        MessageType::ChatMessage => match parse_chat_message(bytes) {
            Ok(m) => Ok(ProtocolMessageView::ChatMessage(m)),
            Err(e) => Err(e),
        },
        MessageType::VerifyReq => match parse_verify_req(bytes) {
            Ok(m) => Ok(ProtocolMessageView::VerifyReq(m)),
            Err(e) => Err(e),
        },
        MessageType::VerifyResp => match parse_verify_resp(bytes) {
            Ok(m) => Ok(ProtocolMessageView::VerifyResp(m)),
            Err(e) => Err(e),
        },
        MessageType::SignupReq => match parse_signup_req(bytes) {
            Ok(m) => Ok(ProtocolMessageView::SignupReq(m)),
            Err(e) => Err(e),
        },
        MessageType::SignupResp => match parse_signup_resp(bytes) {
            Ok(m) => Ok(ProtocolMessageView::SignupResp(m)),
            Err(e) => Err(e),
        },
        MessageType::C2cConnReq => match parse_conn_req(bytes) {
            Ok(m) => Ok(ProtocolMessageView::C2cConnReq(m)),
            Err(e) => Err(e),
        },
        MessageType::C2cConnResp => match parse_conn_resp(bytes) {
            Ok(m) => Ok(ProtocolMessageView::C2cConnResp(m)),
            Err(e) => Err(e),
        },
        MessageType::Invalid => Ok(ProtocolMessageView::Invalid),
    }
}

/// Reads the message inside `packet` with the codec of the kind that the
/// packet's tag names. A packet whose tag names no kind is no error.
pub fn handle_message(packet: &Packet) -> (r: Result<ProtocolMessage, LengthError>)
    ensures
        match r {
            Ok(m) => message_of(packet@) == Ok::<ProtocolMessageView, LengthError>(m@),
            Err(e) => message_of(packet@) == Err::<ProtocolMessageView, LengthError>(e),
        },
{
    let bytes = packet.msg_buffer.as_slice();
    match method_num_to_message_type(packet.method) {
        MessageType::ChatMessage => match ChatMessage::deserialize(bytes) {
            Ok(m) => Ok(ProtocolMessage::ChatMessage(m)),
            Err(e) => Err(e),
        },
        MessageType::VerifyReq => handle_verify_message(packet),
        MessageType::VerifyResp => match VerifyResp::deserialize(bytes) {
            Ok(m) => Ok(ProtocolMessage::VerifyResp(m)),
            Err(e) => Err(e),
        },
        MessageType::SignupReq => match SignupReq::deserialize(bytes) {
            Ok(m) => Ok(ProtocolMessage::SignupReq(m)),
            Err(e) => Err(e),
        },
        MessageType::SignupResp => match SignupResp::deserialize(bytes) {
            Ok(m) => Ok(ProtocolMessage::SignupResp(m)),
            Err(e) => Err(e),
        },
        MessageType::C2cConnReq => match C2cConnReq::deserialize(bytes) {
            Ok(m) => Ok(ProtocolMessage::C2cConnReq(m)),
            Err(e) => Err(e),
        },
        MessageType::C2cConnResp => match C2cConnResp::deserialize(bytes) {
            Ok(m) => Ok(ProtocolMessage::C2cConnResp(m)),
            Err(e) => Err(e),
        },
        MessageType::Invalid => Ok(ProtocolMessage::Invalid),
    }
}

/// Reads the verify request inside `packet`.
pub fn handle_verify_message(packet: &Packet) -> (r: Result<ProtocolMessage, LengthError>)
    ensures
        match r {
            Ok(m) => m is VerifyReq && parse_verify_req(packet.msg_buffer@) == Ok::<
                VerifyReqView,
                LengthError,
            >(m->VerifyReq_0@),
            Err(e) => parse_verify_req(packet.msg_buffer@) == Err::<VerifyReqView, LengthError>(e),
        },
{
    match VerifyReq::deserialize(packet.msg_buffer.as_slice()) {
        Ok(m) => Ok(ProtocolMessage::VerifyReq(m)),
        Err(e) => Err(e),
    }
}

} // verus!
