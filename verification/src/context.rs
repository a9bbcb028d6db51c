//! The Invocation Context: the envelope that carries one RPC through the
//! client and server pipelines — service and method identity, the
//! serialized arguments with their headers, the chosen codec, and the
//! write-once response slot.

use vstd::prelude::*;
use vstd::string::StringExecFns;

use crate::error::FusenError;
use crate::frame::Headers;

verus! {

/// The body codec of one invocation: JSON bodies or gRPC-framed
/// Protobuf bodies.
#[derive(Clone, Copy, PartialEq, Eq, Structural)]
pub enum CodecType {
    Json,
    Grpc,
}

/// The wire protocol of one invocation or one served port.
#[derive(Clone, Copy, PartialEq, Eq, Structural)]
pub enum ProtocolKind {
    Fusen,
    Dubbo,
    SpringCloud,
}

/// The body codec each protocol carries: gRPC-framed Protobuf for
/// Dubbo3, JSON for the others.
pub open spec fn spec_codec_of_protocol(p: ProtocolKind) -> CodecType {
    match p {
        ProtocolKind::Dubbo => CodecType::Grpc,
        _ => CodecType::Json,
    }
}

/// Selects the body codec for a target protocol.
pub fn codec_of_protocol(p: ProtocolKind) -> (r: CodecType)
    ensures
        r == spec_codec_of_protocol(p),
{
    match p {
        ProtocolKind::Dubbo => CodecType::Grpc,
        _ => CodecType::Json,
    }
}

/// The body codec named by a `content-type` value: gRPC exactly for
/// `application/grpc`, JSON for everything else (the default).
pub open spec fn spec_codec_of_content_type(s: Seq<char>) -> CodecType {
    if s == "application/grpc"@ {
        CodecType::Grpc
    } else {
        CodecType::Json
    }
}

/// Maps a `content-type` value to the body codec.
pub fn codec_of_content_type(s: &String) -> (r: CodecType)
    ensures
        r == spec_codec_of_content_type(s@),
{
    let grpc: String = "application/grpc".to_owned();
    if *s == grpc {
        CodecType::Grpc
    } else {
        CodecType::Json
    }
}

/// Per-invocation metadata: the selected codec.
pub struct MetaData {
    pub codec: CodecType,
}

impl MetaData {
    pub fn get_codec(&self) -> (r: CodecType)
        ensures
            r == self.codec,
    {
        self.codec
    }
}

/// The service and method identity of one invocation. The handler key
/// identifies the dispatch target: the interface name, with the version
/// appended after `':'` when present.
pub struct ContextInfo {
    pub package: String,
    pub class_name: String,
    pub method_name: String,
    pub version: Option<String>,
    pub group: Option<String>,
}

impl ContextInfo {
    /// The handler key of this identity.
    pub open spec fn spec_handler_key(&self) -> Seq<char> {
        match self.version {
            Some(v) => self.class_name@ + seq![':'] + v@,
            None => self.class_name@,
        }
    }

    /// Builds the handler key: `class_name`, plus `:version` when a
    /// version is present.
    pub fn get_handler_key(&self) -> (r: String)
        ensures
            r@ == self.spec_handler_key(),
    {
        let mut key = self.class_name.clone();
        match &self.version {
            Some(v) => {
                proof {
                    reveal_strlit(":");
                }
                key.append(":");
                key.append(v.as_str());
            },
            None => {},
        }
        key
    }
}

/// The request side: serialized argument strings and the headers to
/// send.
pub struct FusenRequest {
    pub headers: Headers,
    pub args: Vec<String>,
}

/// The response slot of one invocation: empty until the pipeline writes
/// it, then exactly one of a result or an error, written once.
pub enum ResponseState {
    Pending,
    Done(Result<String, FusenError>),
}

pub struct FusenResponse {
    pub state: ResponseState,
}

/// The envelope of one RPC.
pub struct FusenContext {
    pub context_info: ContextInfo,
    pub meta_data: MetaData,
    pub request: FusenRequest,
    pub response: FusenResponse,
}

/// The context holds a successful result.
pub open spec fn has_result(ctx: &FusenContext) -> bool {
    ctx.response.state matches ResponseState::Done(Ok(_))
}

/// The context holds an error.
pub open spec fn has_error(ctx: &FusenContext) -> bool {
    ctx.response.state matches ResponseState::Done(Err(_))
}

impl FusenContext {
    /// Writes the response slot, exactly once.
    pub fn set_response(&mut self, r: Result<String, FusenError>)
        requires
            old(self).response.state is Pending,
        ensures
            final(self).response.state == ResponseState::Done(r),
            final(self).context_info == old(self).context_info,
            final(self).meta_data == old(self).meta_data,
            final(self).request == old(self).request,
    {
        self.response.state = ResponseState::Done(r);
    }
}

/// Law: once the response slot is written, the context holds exactly one
/// of a result or an error — never both, never neither. This is the shape
/// of every context that reaches the response codec.
pub proof fn lemma_response_exclusive(ctx: &FusenContext)
    requires
        ctx.response.state is Done,
    ensures
        has_result(ctx) != has_error(ctx),
{
}

} // verus!
