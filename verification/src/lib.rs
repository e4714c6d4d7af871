//! Server-side framing and codec layer for a length-prefixed binary RPC
//! protocol: frame parsing, request header decoding, api-key/version
//! dispatch, and byte-exact response encoding with the protocol's
//! compact-array and tagged-field conventions.

pub mod codec;
pub mod dispatch;
pub mod protocol;
pub mod wire;
