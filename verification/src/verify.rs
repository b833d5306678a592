//! Verification: a client proves who it is when it connects.
//!
//! ```text
//! VerifyReq  := username: bytes[50] | token: bytes[32]
//! VerifyResp := status: u8
//! ```

use vstd::prelude::*;
use vstd::string::StringSliceAdditionalSpecFns;
use crate::errors::LengthError;
use crate::field_lens::{ERR_CODE_LEN, TOKEN_LEN, UNAME_LEN};
use crate::shared::encode_uname;
use crate::status_codes::{decode_status_code, status_code_of, StatusCode};
use crate::wire::{push_field, read_field, zero_padded};

verus! {

/// A client's claim to a username, backed by the token it was given.
#[derive(Debug, Clone, PartialEq, Eq)]
pub struct VerifyReq {
    /// The client's username field.
    pub cli_uname: [u8; UNAME_LEN],
    /// The client's token.
    pub token: [u8; TOKEN_LEN],
}

/// What a verify request holds, as mathematical values.
pub ghost struct VerifyReqView {
    pub cli_uname: Seq<u8>,
    pub token: Seq<u8>,
}

impl View for VerifyReq {
    type V = VerifyReqView;

    open spec fn view(&self) -> VerifyReqView {
        VerifyReqView { cli_uname: self.cli_uname@, token: self.token@ }
    }
}

/// Size of a verify request on the wire.
pub open spec fn verify_req_size() -> nat {
    (UNAME_LEN + TOKEN_LEN) as nat
}

impl VerifyReqView {
    /// Both fields have their width.
    pub open spec fn wf(self) -> bool {
        self.cli_uname.len() == UNAME_LEN && self.token.len() == TOKEN_LEN
    }

    /// The request on the wire.
    pub open spec fn wire(self) -> Seq<u8> {
        self.cli_uname + self.token
    }
}

/// The verify request that a buffer starts with, if it is long enough.
pub open spec fn parse_verify_req(bytes: Seq<u8>) -> Result<VerifyReqView, LengthError> {
    let size = verify_req_size() as int;
    if bytes.len() < size {
        Err(LengthError { expected: size as usize, actual: bytes.len() as usize })
    } else {
        Ok(
            VerifyReqView {
                cli_uname: bytes.subrange(0, UNAME_LEN as int),
                token: bytes.subrange(UNAME_LEN as int, size),
            },
        )
    }
}

/// Parsing the wire form of a verify request, with anything after it, gives
/// the request back; and writing out what was parsed gives back the bytes
/// that were read.
pub proof fn lemma_verify_req_roundtrip(m: VerifyReqView, rest: Seq<u8>, bytes: Seq<u8>)
    requires
        m.wf(),
    ensures
        m.wire().len() == verify_req_size(),
        parse_verify_req(m.wire() + rest) == Ok::<VerifyReqView, LengthError>(m),
        parse_verify_req(bytes) is Ok ==> parse_verify_req(bytes)->Ok_0.wire() == bytes.take(
            verify_req_size() as int,
        ),
{
    let parsed = parse_verify_req(m.wire() + rest)->Ok_0;
    assert(parsed.cli_uname =~= m.cli_uname);
    assert(parsed.token =~= m.token);
    if parse_verify_req(bytes) is Ok {
        assert(parse_verify_req(bytes)->Ok_0.wire() =~= bytes.take(verify_req_size() as int));
    }
}

impl VerifyReq {
    /// A request with a zeroed name and a zeroed token.
    pub fn empty() -> (m: VerifyReq)
        ensures
            m.cli_uname@ == zero_padded(Seq::empty(), UNAME_LEN as nat),
            m.token@ == zero_padded(Seq::empty(), TOKEN_LEN as nat),
    {
        let m = VerifyReq { cli_uname: [0u8; UNAME_LEN], token: [0u8; TOKEN_LEN] };
        assert(m.cli_uname@ =~= zero_padded(Seq::empty(), UNAME_LEN as nat));
        assert(m.token@ =~= zero_padded(Seq::empty(), TOKEN_LEN as nat));
        m
    }

    /// The request of the user `c_uname` with `token`. Refused where the
    /// name is wider than its field.
    pub fn new(c_uname: &str, token: [u8; TOKEN_LEN]) -> (r: Result<VerifyReq, LengthError>)
        ensures
            match r {
                Ok(m) => c_uname.spec_bytes().len() <= UNAME_LEN && m.token == token
                    && m.cli_uname@ == zero_padded(c_uname.spec_bytes(), UNAME_LEN as nat),
                Err(e) => c_uname.spec_bytes().len() > UNAME_LEN && e == (LengthError {
                    expected: UNAME_LEN,
                    actual: c_uname.spec_bytes().len() as usize,
                }),
            },
    {
        match encode_uname(c_uname) {
            Ok(cli_uname) => Ok(VerifyReq { cli_uname, token }),
            Err(e) => Err(e),
        }
    }

    /// The request on the wire: username, then token.
    pub fn serialize(&self) -> (buffer: Vec<u8>)
        ensures
            buffer@ == self@.wire(),
    {
        let mut buffer: Vec<u8> = Vec::new();
        push_field(&mut buffer, &self.cli_uname);
        push_field(&mut buffer, &self.token);
        assert(buffer@ =~= self@.wire());
        buffer
    }

    /// Reads the request that `bytes` starts with. Fails where `bytes` is
    /// shorter than a request; bytes after it are ignored.
    pub fn deserialize(bytes: &[u8]) -> (r: Result<VerifyReq, LengthError>)
        ensures
            match r {
                Ok(m) => parse_verify_req(bytes@) == Ok::<VerifyReqView, LengthError>(m@),
                Err(e) => parse_verify_req(bytes@) == Err::<VerifyReqView, LengthError>(e),
            },
            bytes@.len() < verify_req_size() ==> r is Err,
    {
        if bytes.len() < Self::fixed_size() {
            return Err(LengthError { expected: Self::fixed_size(), actual: bytes.len() });
        }
        let cli_uname: [u8; UNAME_LEN] = read_field(bytes, 0);
        let token: [u8; TOKEN_LEN] = read_field(bytes, UNAME_LEN);
        Ok(VerifyReq { cli_uname, token })
    }

    /// Number of bytes that `serialize` produces.
    pub fn length(&self) -> (n: usize)
        ensures
            n == self@.wire().len(),
            n == verify_req_size(),
    {
        Self::fixed_size()
    }

    /// Size of a verify request on the wire.
    pub fn fixed_size() -> (n: usize)
        ensures
            n == verify_req_size(),
            n == 82,
    {
        UNAME_LEN + TOKEN_LEN
    }
}

/// The server's answer to a verify request.
#[derive(Debug, Clone, PartialEq, Eq)]
pub struct VerifyResp {
    /// Whether the claim was accepted.
    pub status_code: StatusCode,
}

/// Size of a verify response on the wire.
pub open spec fn verify_resp_size() -> nat {
    ERR_CODE_LEN as nat
}

/// A verify response on the wire.
pub open spec fn verify_resp_wire(status_code: StatusCode) -> Seq<u8> {
    seq![status_code.byte()]
}

/// The status of the verify response that a buffer starts with, if the
/// buffer is not empty.
pub open spec fn parse_verify_resp(bytes: Seq<u8>) -> Result<StatusCode, LengthError> {
    if bytes.len() < verify_resp_size() {
        Err(LengthError { expected: ERR_CODE_LEN, actual: bytes.len() as usize })
    } else {
        Ok(status_code_of(bytes[0]))
    }
}

/// Parsing the wire form of a verify response, with anything after it,
/// gives its status back; and writing out what was parsed from a known
/// status byte gives that byte back.
pub proof fn lemma_verify_resp_roundtrip(status_code: StatusCode, rest: Seq<u8>, bytes: Seq<u8>)
    ensures
        parse_verify_resp(verify_resp_wire(status_code) + rest) == Ok::<StatusCode, LengthError>(
            status_code,
        ),
        bytes.len() >= 1 && bytes[0] <= 2 ==> verify_resp_wire(parse_verify_resp(bytes)->Ok_0)
            == bytes.take(1),
{
    if bytes.len() >= 1 && bytes[0] <= 2 {
        assert(verify_resp_wire(parse_verify_resp(bytes)->Ok_0) =~= bytes.take(1));
    }
}

impl VerifyResp {
    /// The response with this status.
    pub fn new(code: StatusCode) -> (m: VerifyResp)
        ensures
            m.status_code == code,
    {
        VerifyResp { status_code: code }
    }

    /// The response on the wire: the status byte.
    pub fn serialize(&self) -> (buffer: Vec<u8>)
        ensures
            buffer@ == verify_resp_wire(self.status_code),
    {
        let mut buffer: Vec<u8> = Vec::new();
        buffer.push(self.status_code.to_byte());
        assert(buffer@ =~= verify_resp_wire(self.status_code));
        buffer
    }

    /// Reads the response that `bytes` starts with. Fails where `bytes` is
    /// empty; bytes after the status are ignored, and a status byte that is
    /// no known code reads as `Invalid`.
    pub fn deserialize(bytes: &[u8]) -> (r: Result<VerifyResp, LengthError>)
        ensures
            match r {
                Ok(m) => parse_verify_resp(bytes@) == Ok::<StatusCode, LengthError>(
                    m.status_code,
                ),
                Err(e) => parse_verify_resp(bytes@) == Err::<StatusCode, LengthError>(e),
            },
            bytes@.len() < verify_resp_size() ==> r is Err,
    {
        if bytes.len() < Self::fixed_size() {
            return Err(LengthError { expected: Self::fixed_size(), actual: bytes.len() });
        }
        let status_code = decode_status_code(bytes[0]);
        Ok(VerifyResp { status_code })
    }

    /// Number of bytes that `serialize` produces.
    pub fn length(&self) -> (n: usize)
        ensures
            n == verify_resp_wire(self.status_code).len(),
            n == verify_resp_size(),
    {
        Self::fixed_size()
    }

    /// Size of a verify response on the wire.
    pub fn fixed_size() -> (n: usize)
        ensures
            n == verify_resp_size(),
            n == 1,
    {
        ERR_CODE_LEN
    }
}

} // verus!
