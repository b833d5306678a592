//! Connecting two clients: one asks, through the server, to connect with
//! another, and the other answers.
//!
//! ```text
//! C2cConnReq  := requester: bytes[50] | target: bytes[50]
//! C2cConnResp := requester: bytes[50] | target: bytes[50] | response: u8
//! ```

use vstd::prelude::*;
use vstd::string::StringSliceAdditionalSpecFns;
use crate::errors::LengthError;
use crate::field_lens::{ERR_CODE_LEN, UNAME_LEN};
use crate::shared::encode_uname;
use crate::wire::{push_field, read_field, zero_padded};

verus! {

/// A client's request to connect with another client.
#[derive(Debug, Clone, PartialEq, Eq)]
pub struct C2cConnReq {
    /// The username field of the client that asks.
    pub req_uname: [u8; UNAME_LEN],
    /// The username field of the client that is asked.
    pub resp_uname: [u8; UNAME_LEN],
}

/// A client's answer to a connection request.
#[derive(Debug, Clone, PartialEq, Eq)]
pub struct C2cConnResp {
    /// The username field of the client that asked.
    pub req_uname: [u8; UNAME_LEN],
    /// The username field of the client that answers.
    pub resp_uname: [u8; UNAME_LEN],
    /// The answer.
    pub response: u8,
}

/// What a connection request holds, as mathematical values.
pub ghost struct C2cConnReqView {
    pub req_uname: Seq<u8>,
    pub resp_uname: Seq<u8>,
}

/// What a connection response holds, as mathematical values.
pub ghost struct C2cConnRespView {
    pub req_uname: Seq<u8>,
    pub resp_uname: Seq<u8>,
    pub response: u8,
}

impl View for C2cConnReq {
    type V = C2cConnReqView;

    open spec fn view(&self) -> C2cConnReqView {
        C2cConnReqView { req_uname: self.req_uname@, resp_uname: self.resp_uname@ }
    }
}

impl View for C2cConnResp {
    type V = C2cConnRespView;

    open spec fn view(&self) -> C2cConnRespView {
        C2cConnRespView {
            req_uname: self.req_uname@,
            resp_uname: self.resp_uname@,
            response: self.response,
        }
    }
}

/// Size of a connection request on the wire.
pub open spec fn conn_req_size() -> nat {
    (2 * UNAME_LEN) as nat
}

/// Size of a connection response on the wire.
pub open spec fn conn_resp_size() -> nat {
    (2 * UNAME_LEN + ERR_CODE_LEN) as nat
}

impl C2cConnReqView {
    /// Both names fill their fields.
    pub open spec fn wf(self) -> bool {
        self.req_uname.len() == UNAME_LEN && self.resp_uname.len() == UNAME_LEN
    }

    /// The request on the wire.
    pub open spec fn wire(self) -> Seq<u8> {
        self.req_uname + self.resp_uname
    }
}

impl C2cConnRespView {
    /// Both names fill their fields.
    pub open spec fn wf(self) -> bool {
        self.req_uname.len() == UNAME_LEN && self.resp_uname.len() == UNAME_LEN
    }

    /// The response on the wire.
    pub open spec fn wire(self) -> Seq<u8> {
        self.req_uname + self.resp_uname + seq![self.response]
    }
}

/// The connection request that a buffer starts with, if it is long enough.
pub open spec fn parse_conn_req(bytes: Seq<u8>) -> Result<C2cConnReqView, LengthError> {
    let size = conn_req_size() as int;
    if bytes.len() < size {
        Err(LengthError { expected: size as usize, actual: bytes.len() as usize })
    } else {
        Ok(
            C2cConnReqView {
                req_uname: bytes.subrange(0, UNAME_LEN as int),
                resp_uname: bytes.subrange(UNAME_LEN as int, size),
            },
        )
    }
}

/// The connection response that a buffer starts with, if it is long enough.
pub open spec fn parse_conn_resp(bytes: Seq<u8>) -> Result<C2cConnRespView, LengthError> {
    let size = conn_resp_size() as int;
    if bytes.len() < size {
        Err(LengthError { expected: size as usize, actual: bytes.len() as usize })
    } else {
        Ok(
            C2cConnRespView {
                req_uname: bytes.subrange(0, UNAME_LEN as int),
                resp_uname: bytes.subrange(UNAME_LEN as int, 2 * UNAME_LEN),
                response: bytes[2 * UNAME_LEN],
            },
        )
    }
}

/// Parsing the wire form of a connection request, with anything after it,
/// gives the request back; and writing out what was parsed gives back the
/// bytes that were read.
pub proof fn lemma_conn_req_roundtrip(m: C2cConnReqView, rest: Seq<u8>, bytes: Seq<u8>)
    requires
        m.wf(),
    ensures
        m.wire().len() == conn_req_size(),
        parse_conn_req(m.wire() + rest) == Ok::<C2cConnReqView, LengthError>(m),
        parse_conn_req(bytes) is Ok ==> parse_conn_req(bytes)->Ok_0.wire() == bytes.take(
            conn_req_size() as int,
        ),
{
    let parsed = parse_conn_req(m.wire() + rest)->Ok_0;
    assert(parsed.req_uname =~= m.req_uname);
    assert(parsed.resp_uname =~= m.resp_uname);
    if parse_conn_req(bytes) is Ok {
        assert(parse_conn_req(bytes)->Ok_0.wire() =~= bytes.take(conn_req_size() as int));
    }
}

/// Parsing the wire form of a connection response, with anything after it,
/// gives the response back; and writing out what was parsed gives back the
/// bytes that were read.
pub proof fn lemma_conn_resp_roundtrip(m: C2cConnRespView, rest: Seq<u8>, bytes: Seq<u8>)
    requires
        m.wf(),
    ensures
        m.wire().len() == conn_resp_size(),
        parse_conn_resp(m.wire() + rest) == Ok::<C2cConnRespView, LengthError>(m),
        parse_conn_resp(bytes) is Ok ==> parse_conn_resp(bytes)->Ok_0.wire() == bytes.take(
            conn_resp_size() as int,
        ),
{
    let parsed = parse_conn_resp(m.wire() + rest)->Ok_0;
    assert(parsed.req_uname =~= m.req_uname);
    assert(parsed.resp_uname =~= m.resp_uname);
    if parse_conn_resp(bytes) is Ok {
        assert(parse_conn_resp(bytes)->Ok_0.wire() =~= bytes.take(conn_resp_size() as int));
    }
}

/// The error with which a constructor refuses the UTF-8 forms of two
/// usernames, the requester's first; `None` where both fit their fields.
pub open spec fn unames_error(requester: Seq<u8>, target: Seq<u8>) -> Option<LengthError> {
    if requester.len() > UNAME_LEN {
        Some(LengthError { expected: UNAME_LEN, actual: requester.len() as usize })
    } else if target.len() > UNAME_LEN {
        Some(LengthError { expected: UNAME_LEN, actual: target.len() as usize })
    } else {
        None
    }
}

impl C2cConnReq {
    /// The request of `requester` to connect with `target`. Refused where
    /// a name is wider than its field.
    pub fn new(requester: &str, target: &str) -> (r: Result<C2cConnReq, LengthError>)
        ensures
            match r {
                Ok(m) => unames_error(requester.spec_bytes(), target.spec_bytes()) is None
                    && m@ == (C2cConnReqView {
                    req_uname: zero_padded(requester.spec_bytes(), UNAME_LEN as nat),
                    resp_uname: zero_padded(target.spec_bytes(), UNAME_LEN as nat),
                }),
                Err(e) => unames_error(requester.spec_bytes(), target.spec_bytes()) == Some(e),
            },
    {
        let req_uname = match encode_uname(requester) {
            Ok(field) => field,
            Err(e) => { return Err(e); },
        };
        let resp_uname = match encode_uname(target) {
            Ok(field) => field,
            Err(e) => { return Err(e); },
        };
        Ok(C2cConnReq { req_uname, resp_uname })
    }

    /// The request on the wire: requester, then target.
    pub fn serialize(&self) -> (buffer: Vec<u8>)
        ensures
            buffer@ == self@.wire(),
    {
        let mut buffer: Vec<u8> = Vec::new();
        push_field(&mut buffer, &self.req_uname);
        push_field(&mut buffer, &self.resp_uname);
        assert(buffer@ =~= self@.wire());
        buffer
    }

    /// Reads the request that `bytes` starts with. Fails where `bytes` is
    /// shorter than a request; bytes after it are ignored.
    pub fn deserialize(bytes: &[u8]) -> (r: Result<C2cConnReq, LengthError>)
        ensures
            match r {
                Ok(m) => parse_conn_req(bytes@) == Ok::<C2cConnReqView, LengthError>(m@),
                Err(e) => parse_conn_req(bytes@) == Err::<C2cConnReqView, LengthError>(e),
            },
            bytes@.len() < conn_req_size() ==> r is Err,
    {
        if bytes.len() < Self::fixed_size() {
            return Err(LengthError { expected: Self::fixed_size(), actual: bytes.len() });
        }
        let req_uname: [u8; UNAME_LEN] = read_field(bytes, 0);
        let resp_uname: [u8; UNAME_LEN] = read_field(bytes, UNAME_LEN);
        Ok(C2cConnReq { req_uname, resp_uname })
    }

    /// Number of bytes that `serialize` produces.
    pub fn length(&self) -> (n: usize)
        ensures
            n == self@.wire().len(),
            n == conn_req_size(),
    {
        Self::fixed_size()
    }

    /// Size of a connection request on the wire.
    pub fn fixed_size() -> (n: usize)
        ensures
            n == conn_req_size(),
            n == 100,
    {
        2 * UNAME_LEN
    }
}

impl C2cConnResp {
    /// The answer `response` of `target` to the request of `requester`.
    /// Refused where a name is wider than its field.
    pub fn new(requester: &str, target: &str, response: u8) -> (r: Result<C2cConnResp, LengthError>)
        ensures
            match r {
                Ok(m) => unames_error(requester.spec_bytes(), target.spec_bytes()) is None
                    && m@ == (C2cConnRespView {
                    req_uname: zero_padded(requester.spec_bytes(), UNAME_LEN as nat),
                    resp_uname: zero_padded(target.spec_bytes(), UNAME_LEN as nat),
                    response,
                }),
                Err(e) => unames_error(requester.spec_bytes(), target.spec_bytes()) == Some(e),
            },
    {
        let req_uname = match encode_uname(requester) {
            Ok(field) => field,
            Err(e) => { return Err(e); },
        };
        let resp_uname = match encode_uname(target) {
            Ok(field) => field,
            Err(e) => { return Err(e); },
        };
        Ok(C2cConnResp { req_uname, resp_uname, response })
    }

    /// The response on the wire: requester, target, answer.
    pub fn serialize(&self) -> (buffer: Vec<u8>)
        ensures
            buffer@ == self@.wire(),
    {
        let mut buffer: Vec<u8> = Vec::new();
        push_field(&mut buffer, &self.req_uname);
        push_field(&mut buffer, &self.resp_uname);
        buffer.push(self.response);
        assert(buffer@ =~= self@.wire());
        buffer
    }

    /// Reads the response that `bytes` starts with. Fails where `bytes` is
    /// shorter than a response; bytes after it are ignored.
    pub fn deserialize(bytes: &[u8]) -> (r: Result<C2cConnResp, LengthError>)
        ensures
            match r {
                Ok(m) => parse_conn_resp(bytes@) == Ok::<C2cConnRespView, LengthError>(m@),
                Err(e) => parse_conn_resp(bytes@) == Err::<C2cConnRespView, LengthError>(e),
            },
            bytes@.len() < conn_resp_size() ==> r is Err,
    {
        if bytes.len() < Self::fixed_size() {
            return Err(LengthError { expected: Self::fixed_size(), actual: bytes.len() });
        }
        let req_uname: [u8; UNAME_LEN] = read_field(bytes, 0);
        let resp_uname: [u8; UNAME_LEN] = read_field(bytes, UNAME_LEN);
        let response: u8 = bytes[2 * UNAME_LEN];
        Ok(C2cConnResp { req_uname, resp_uname, response })
    }

    /// Number of bytes that `serialize` produces.
    pub fn length(&self) -> (n: usize)
        ensures
            n == self@.wire().len(),
            n == conn_resp_size(),
    {
        Self::fixed_size()
    }

    /// Size of a connection response on the wire.
    pub fn fixed_size() -> (n: usize)
        ensures
            n == conn_resp_size(),
            n == 101,
    {
        2 * UNAME_LEN + ERR_CODE_LEN
    }
}

} // verus!
