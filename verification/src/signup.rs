//! Signup: a new user asks for a username and is given a token.
//!
//! ```text
//! SignupReq  := username: bytes[50]
//! SignupResp := status: u8 | token: bytes[32]
//! ```

use vstd::prelude::*;
use vstd::string::StringSliceAdditionalSpecFns;
use crate::errors::LengthError;
use crate::field_lens::{ERR_CODE_LEN, TOKEN_LEN, UNAME_LEN};
use crate::shared::{encode_uname, generate_token};
use crate::status_codes::{decode_status_code, status_code_of, StatusCode};
use crate::wire::{push_field, read_field, zero_padded};

verus! {

/// A new user's request for a username.
#[derive(Debug, Clone, PartialEq, Eq)]
pub struct SignupReq {
    /// The username field.
    pub cli_uname: [u8; UNAME_LEN],
}

/// Size of a signup request on the wire.
pub open spec fn signup_req_size() -> nat {
    UNAME_LEN as nat
}

/// The username field of the signup request that a buffer starts with, if
/// the buffer is long enough.
pub open spec fn parse_signup_req(bytes: Seq<u8>) -> Result<Seq<u8>, LengthError> {
    if bytes.len() < signup_req_size() {
        Err(LengthError { expected: UNAME_LEN, actual: bytes.len() as usize })
    } else {
        Ok(bytes.subrange(0, UNAME_LEN as int))
    }
}

/// Parsing the wire form of a signup request, with anything after it,
/// gives its username field back; and what was parsed is the start of the
/// bytes that were read.
pub proof fn lemma_signup_req_roundtrip(cli_uname: Seq<u8>, rest: Seq<u8>, bytes: Seq<u8>)
    requires
        cli_uname.len() == UNAME_LEN,
    ensures
        parse_signup_req(cli_uname + rest) == Ok::<Seq<u8>, LengthError>(cli_uname),
        parse_signup_req(bytes) is Ok ==> parse_signup_req(bytes)->Ok_0 == bytes.take(
            signup_req_size() as int,
        ),
{
    assert((cli_uname + rest).subrange(0, UNAME_LEN as int) =~= cli_uname);
}

impl SignupReq {
    /// A request with a zeroed name.
    pub fn empty() -> (m: SignupReq)
        ensures
            m.cli_uname@ == zero_padded(Seq::empty(), UNAME_LEN as nat),
    {
        let m = SignupReq { cli_uname: [0u8; UNAME_LEN] };
        assert(m.cli_uname@ =~= zero_padded(Seq::empty(), UNAME_LEN as nat));
        m
    }

    /// The request for the name `new_uname`. Refused where the name is
    /// wider than its field.
    pub fn new(new_uname: &str) -> (r: Result<SignupReq, LengthError>)
        ensures
            match r {
                Ok(m) => new_uname.spec_bytes().len() <= UNAME_LEN && m.cli_uname@
                    == zero_padded(new_uname.spec_bytes(), UNAME_LEN as nat),
                Err(e) => new_uname.spec_bytes().len() > UNAME_LEN && e == (LengthError {
                    expected: UNAME_LEN,
                    actual: new_uname.spec_bytes().len() as usize,
                }),
            },
    {
        match encode_uname(new_uname) {
            Ok(cli_uname) => Ok(SignupReq { cli_uname }),
            Err(e) => Err(e),
        }
    }

    /// The request on the wire: the username field.
    pub fn serialize(&self) -> (buffer: Vec<u8>)
        ensures
            buffer@ == self.cli_uname@,
    {
        let mut buffer: Vec<u8> = Vec::new();
        push_field(&mut buffer, &self.cli_uname);
        assert(buffer@ =~= self.cli_uname@);
        buffer
    }

    /// Reads the request that `bytes` starts with. Fails where `bytes` is
    /// shorter than a request; bytes after it are ignored.
    pub fn deserialize(bytes: &[u8]) -> (r: Result<SignupReq, LengthError>)
        ensures
            match r {
                Ok(m) => parse_signup_req(bytes@) == Ok::<Seq<u8>, LengthError>(m.cli_uname@),
                Err(e) => parse_signup_req(bytes@) == Err::<Seq<u8>, LengthError>(e),
            },
            bytes@.len() < signup_req_size() ==> r is Err,
    {
        if bytes.len() < Self::fixed_size() {
            return Err(LengthError { expected: Self::fixed_size(), actual: bytes.len() });
        }
        let cli_uname: [u8; UNAME_LEN] = read_field(bytes, 0);
        Ok(SignupReq { cli_uname })
    }

    /// Number of bytes that `serialize` produces.
    pub fn length(&self) -> (n: usize)
        ensures
            n == self.cli_uname@.len(),
            n == signup_req_size(),
    {
        Self::fixed_size()
    }

    /// Size of a signup request on the wire.
    pub fn fixed_size() -> (n: usize)
        ensures
            n == signup_req_size(),
            n == 50,
    {
        UNAME_LEN
    }
}

/// The server's answer to a signup request.
#[derive(Debug, Clone, PartialEq, Eq)]
pub struct SignupResp {
    /// Whether the name was granted.
    pub status_code: StatusCode,
    /// The token that goes with the name.
    pub token: [u8; TOKEN_LEN],
}

/// What a signup response holds, as mathematical values.
pub ghost struct SignupRespView {
    pub status_code: StatusCode,
    pub token: Seq<u8>,
}

impl View for SignupResp {
    type V = SignupRespView;

    open spec fn view(&self) -> SignupRespView {
        SignupRespView { status_code: self.status_code, token: self.token@ }
    }
}

/// Size of a signup response on the wire.
pub open spec fn signup_resp_size() -> nat {
    (ERR_CODE_LEN + TOKEN_LEN) as nat
}

impl SignupRespView {
    /// The token has its width.
    pub open spec fn wf(self) -> bool {
        self.token.len() == TOKEN_LEN
    }

    /// The response on the wire.
    pub open spec fn wire(self) -> Seq<u8> {
        seq![self.status_code.byte()] + self.token
    }
}

/// The signup response that a buffer starts with, if it is long enough.
pub open spec fn parse_signup_resp(bytes: Seq<u8>) -> Result<SignupRespView, LengthError> {
    let size = signup_resp_size() as int;
    if bytes.len() < size {
        Err(LengthError { expected: size as usize, actual: bytes.len() as usize })
    } else {
        Ok(
            SignupRespView {
                status_code: status_code_of(bytes[0]),
                token: bytes.subrange(ERR_CODE_LEN as int, size),
            },
        )
    }
}

/// Parsing the wire form of a signup response, with anything after it,
/// gives the response back; and writing out what was parsed from bytes
/// with a known status byte gives back the bytes that were read.
pub proof fn lemma_signup_resp_roundtrip(m: SignupRespView, rest: Seq<u8>, bytes: Seq<u8>)
    requires
        m.wf(),
    ensures
        m.wire().len() == signup_resp_size(),
        parse_signup_resp(m.wire() + rest) == Ok::<SignupRespView, LengthError>(m),
        parse_signup_resp(bytes) is Ok && bytes[0] <= 2 ==> parse_signup_resp(bytes)->Ok_0.wire()
            == bytes.take(signup_resp_size() as int),
{
    let parsed = parse_signup_resp(m.wire() + rest)->Ok_0;
    assert(parsed.token =~= m.token);
    if parse_signup_resp(bytes) is Ok && bytes[0] <= 2 {
        assert(parse_signup_resp(bytes)->Ok_0.wire() =~= bytes.take(signup_resp_size() as int));
    }
}

impl SignupResp {
    /// The response with this status and a freshly generated token.
    pub fn new(status_code: StatusCode) -> (m: SignupResp)
        ensures
            m.status_code == status_code,
    {
        Self::with_token(status_code, generate_token())
    }

    /// The response with this status and this token.
    pub fn with_token(status_code: StatusCode, token: [u8; TOKEN_LEN]) -> (m: SignupResp)
        ensures
            m.status_code == status_code,
            m.token == token,
    {
        SignupResp { status_code, token }
    }

    /// The response on the wire: status byte, then token.
    pub fn serialize(&self) -> (buffer: Vec<u8>)
        ensures
            buffer@ == self@.wire(),
    {
        let mut buffer: Vec<u8> = Vec::new();
        buffer.push(self.status_code.to_byte());
        push_field(&mut buffer, &self.token);
        assert(buffer@ =~= self@.wire());
        buffer
    }

    /// Reads the response that `bytes` starts with. Fails where `bytes` is
    /// shorter than a response; bytes after it are ignored, and a status
    /// byte that is no known code reads as `Invalid`.
    pub fn deserialize(bytes: &[u8]) -> (r: Result<SignupResp, LengthError>)
        ensures
            match r {
                Ok(m) => parse_signup_resp(bytes@) == Ok::<SignupRespView, LengthError>(m@),
                Err(e) => parse_signup_resp(bytes@) == Err::<SignupRespView, LengthError>(e),
            },
            bytes@.len() < signup_resp_size() ==> r is Err,
    {
        if bytes.len() < Self::fixed_size() {
            return Err(LengthError { expected: Self::fixed_size(), actual: bytes.len() });
        }
        let status_code = decode_status_code(bytes[0]);
        let token: [u8; TOKEN_LEN] = read_field(bytes, ERR_CODE_LEN);
        Ok(SignupResp { status_code, token })
    }

    /// Number of bytes that `serialize` produces.
    pub fn length(&self) -> (n: usize)
        ensures
            n == self@.wire().len(),
            n == signup_resp_size(),
    {
        Self::fixed_size()
    }

    /// Size of a signup response on the wire.
    pub fn fixed_size() -> (n: usize)
        ensures
            n == signup_resp_size(),
            n == 33,
    {
        ERR_CODE_LEN + TOKEN_LEN
    }
}

} // verus!
