//! Core of a multi-protocol RPC runtime: protocol codecs, the client
//! invocation pipeline, the route cache, and server dispatch.
//!
//! Wire bodies for the gRPC-style protocol are framed Protobuf envelopes;
//! JSON bodies carry argument lists. Every encode/decode path is specified
//! and verified down to the byte level.

pub mod aspect;
pub mod context;
pub mod error;
pub mod frame;
pub mod json_codec;
pub mod proto;
pub mod register;
pub mod request_codec;
pub mod response_codec;
pub mod server;
pub mod text;
pub mod triple;
