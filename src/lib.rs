//! Client-side codec for the Source engine server query protocol: the
//! challenge handshake datagrams and a decoder for `A2S_INFO` replies.

pub mod wire;
pub mod extra;
pub mod info;
pub mod handshake;
pub mod laws;

pub use extra::A2SExtraData;
pub use handshake::{answer_challenge, challenge_request, challenge_token, info_request};
pub use info::{A2SInfo, OsType, ServerType, Visibility};
pub use wire::DecodeError;
