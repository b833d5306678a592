//! A minimal point-to-point chat protocol: typed messages, the packet that
//! frames them on the wire, and the per-peer message log kept by a client.
//!
//! Every message travels inside a [`packet::Packet`]. The message kinds are:
//!
//! * `ChatMessage`: a chat message between two connected users;
//! * `VerifyReq` / `VerifyResp`: a user authenticates with username and token;
//! * `SignupReq` / `SignupResp`: a new user asks for a username and gets a token;
//! * `C2cConnReq` / `C2cConnResp`: a user asks to connect with another user.
//!
//! All integers on the wire are big-endian. All functions here are pure
//! transforms over byte buffers; reading sockets and files is the caller's job.

pub mod field_lens;
pub mod errors;
pub mod wire;
pub mod shared;
pub mod message_types;
pub mod status_codes;
pub mod packet;
pub mod chat_message;
pub mod verify;
pub mod signup;
pub mod connect;
pub mod comms;
pub mod message;
pub mod conn_map;
pub mod storage;
pub mod helpers;
