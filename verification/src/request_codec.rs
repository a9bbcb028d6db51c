//! The request codec, client side: the POST path each protocol uses
//! and the request body the context's codec produces — the JSON
//! argument list for Fusen and SpringCloud, the gRPC-framed
//! `TripleRequestWrapper` for Dubbo3.

use vstd::prelude::*;
use vstd::string::StringExecFns;
use vstd::utf8::{decode_utf8, encode_utf8, valid_utf8};

use crate::context::{CodecType, ContextInfo, FusenContext, ProtocolKind};
use crate::error::FusenError;
use crate::frame::Frame;
use crate::json_codec::{spec_json_decode, spec_json_encode, strs_view, JsonBodyCodec};
use crate::proto::{decode_grpc_frame, encode_grpc_frame, sp_grpc_frame, spec_grpc_frame};
use crate::triple::{decode_triple_request, encode_triple_request, spec_decode_request,
    spec_encode_request, TripleRequestView, TripleRequestWrapper};

verus! {

/// The request path of one invocation: `/{interface}/{method}` for
/// Fusen, `/{package}.{interface}/{method}` for Dubbo3, `/{method}`
/// for SpringCloud.
pub open spec fn spec_request_path(ci: ContextInfo, p: ProtocolKind) -> Seq<char> {
    match p {
        ProtocolKind::Fusen => seq!['/'] + ci.class_name@ + seq!['/'] + ci.method_name@,
        ProtocolKind::Dubbo => seq!['/'] + ci.package@ + seq!['.'] + ci.class_name@ + seq!['/']
            + ci.method_name@,
        ProtocolKind::SpringCloud => seq!['/'] + ci.method_name@,
    }
}

/// Builds the request path for a target protocol.
pub fn request_path(ci: &ContextInfo, p: ProtocolKind) -> (r: String)
    ensures
        r@ == spec_request_path(*ci, p),
{
    proof {
        reveal_strlit("/");
        reveal_strlit(".");
        assert("/"@ =~= seq!['/']);
        assert("."@ =~= seq!['.']);
    }
    let mut path = "/".to_owned();
    match p {
        ProtocolKind::Fusen => {
            path.append(ci.class_name.as_str());
            path.append("/");
            path.append(ci.method_name.as_str());
        },
        ProtocolKind::Dubbo => {
            path.append(ci.package.as_str());
            path.append(".");
            path.append(ci.class_name.as_str());
            path.append("/");
            path.append(ci.method_name.as_str());
        },
        ProtocolKind::SpringCloud => {
            path.append(ci.method_name.as_str());
        },
    }
    path
}

/// The wire body of a Dubbo3 request carrying the given argument list:
/// the gRPC framing of the encoded `TripleRequestWrapper` that
/// [`TripleRequestWrapper::get_request`] builds.
pub open spec fn spec_grpc_request_payload(args: Seq<Seq<char>>) -> Seq<u8> {
    spec_encode_request(
        TripleRequestView {
            serialize_type: "fastjson2"@,
            args: args.map(|i: int, s: Seq<char>| encode_utf8(s)),
            arg_types: seq!["org.apache.dubbo.springboot.demo.ReqDto"@],
        },
    )
}

/// Encodes the request body with the codec the context selected.
///
/// JSON: the argument list per the JSON codec (an empty list is
/// refused). gRPC: the framed request envelope; only an envelope too
/// large for the 4-byte length prefix is refused.
pub fn encode_request_body(ctx: &FusenContext) -> (r: Result<Vec<u8>, FusenError>)
    ensures
        ctx.meta_data.codec is Json ==> {
            &&& (ctx.request.args@.len() == 0 <==> r is Err)
            &&& (r matches Ok(b) ==> b@ == spec_json_encode(strs_view(ctx.request.args)))
        },
        ctx.meta_data.codec is Grpc ==> {
            let payload = spec_grpc_request_payload(strs_view(ctx.request.args));
            &&& payload.len() < 0x100000000 ==> (r matches Ok(b) && b@ == spec_grpc_frame(payload))
            &&& payload.len() >= 0x100000000 ==> r is Err
        },
        r matches Err(e) ==> e is Info,
{
    match ctx.meta_data.codec {
        CodecType::Json => JsonBodyCodec::new().encode(&ctx.request.args),
        CodecType::Grpc => {
            let mut copies: Vec<String> = Vec::new();
            let mut i: usize = 0;
            while i < ctx.request.args.len()
                invariant
                    i <= ctx.request.args@.len(),
                    copies@.len() == i,
                    forall|j: int| 0 <= j < i ==> copies@[j] == ctx.request.args@[j],
                decreases ctx.request.args@.len() - i,
            {
                copies.push(ctx.request.args[i].clone());
                i += 1;
            }
            let wrapper = TripleRequestWrapper::get_request(copies);
            let encoded = encode_triple_request(&wrapper);
            proof {
                let target = TripleRequestView {
                    serialize_type: "fastjson2"@,
                    args: strs_view(ctx.request.args).map(|k: int, s: Seq<char>| encode_utf8(s)),
                    arg_types: seq!["org.apache.dubbo.springboot.demo.ReqDto"@],
                };
                assert(wrapper@.args =~= target.args);
                assert(wrapper@.arg_types =~= target.arg_types);
                assert(wrapper@ =~= target);
            }
            match encode_grpc_frame(encoded.as_slice()) {
                Some(framed) => Ok(framed),
                None => Err(FusenError::Info("body too large".to_owned())),
            }
        },
    }
}

/// The concatenated bytes of a body's data frames, in order; trailers
/// carry no body bytes.
pub open spec fn spec_concat_data(frames: Seq<Frame>) -> Seq<u8>
    decreases frames.len(),
{
    if frames.len() == 0 {
        Seq::empty()
    } else {
        spec_concat_data(frames.drop_last()) + (if frames.last() is Data {
            frames.last()->Data_0@
        } else {
            Seq::<u8>::empty()
        })
    }
}

/// Server side: decodes the request arguments with the codec the
/// request's content type named. JSON reads the first data frame as the
/// argument list; gRPC concatenates the data frames, unframes them, and
/// takes the request envelope's argument payloads as strings. Every
/// failure is an `Info` error.
pub fn decode_request_body(codec: CodecType, frames: &Vec<Frame>) -> (r: Result<
    Vec<String>,
    FusenError,
>)
    ensures
        codec is Json ==> {
            &&& ((frames@.len() == 0 || !frames@[0].is_data()) ==> r is Err)
            &&& (frames@.len() > 0 && frames@[0].is_data() ==> (match spec_json_decode(
                frames@[0].spec_data(),
            ) {
                Some(l) => r matches Ok(v) && strs_view(v) == l,
                None => r is Err,
            }))
        },
        codec is Grpc ==> (match sp_grpc_frame(spec_concat_data(frames@)) {
            None => r is Err,
            Some(p) => match spec_decode_request(p) {
                None => r is Err,
                Some(w) => {
                    &&& crate::text::all_valid_utf8(w.args) ==> (r matches Ok(v) && v@.len()
                        == w.args.len() && (forall|i: int|
                        0 <= i < w.args.len() ==> v@[i]@ == decode_utf8(#[trigger] w.args[i])))
                    &&& !crate::text::all_valid_utf8(w.args) ==> r is Err
                },
            },
        }),
        r matches Err(e) ==> e is Info,
{
    match codec {
        CodecType::Json => JsonBodyCodec::new().decode(frames),
        CodecType::Grpc => {
            let mut data: Vec<u8> = Vec::new();
            let mut i: usize = 0;
            proof {
                assert(frames@.take(0) =~= Seq::<Frame>::empty());
            }
            while i < frames.len()
                invariant
                    i <= frames@.len(),
                    data@ == spec_concat_data(frames@.take(i as int)),
                decreases frames@.len() - i,
            {
                proof {
                    assert(frames@.take(i as int + 1).drop_last() =~= frames@.take(i as int));
                    assert(frames@.take(i as int + 1).last() == frames@[i as int]);
                }
                match &frames[i] {
                    Frame::Data(d) => {
                        data.extend_from_slice(d.as_slice());
                    },
                    Frame::Trailers(_) => {
                        proof {
                            assert(data@ + Seq::<u8>::empty() =~= data@);
                        }
                    },
                }
                i += 1;
            }
            proof {
                assert(frames@.take(frames@.len() as int) =~= frames@);
            }
            let payload = match decode_grpc_frame(data.as_slice()) {
                Some(p) => p,
                None => {
                    return Err(FusenError::Info("grpc frame err".to_owned()));
                },
            };
            let wrapper = match decode_triple_request(payload.as_slice()) {
                Some(w) => w,
                None => {
                    return Err(FusenError::Info("grpc decode err".to_owned()));
                },
            };
            proof {
                assert(spec_concat_data(frames@) == data@);
                assert(sp_grpc_frame(spec_concat_data(frames@)) == Some(payload@));
                assert(spec_decode_request(payload@) == Some(wrapper@));
            }
            match wrapper.try_get_req() {
                Some(args) => {
                    proof {
                        assert(args@.len() == wrapper@.args.len());
                        assert forall|i: int| 0 <= i < wrapper@.args.len() implies args@[i]@
                            == decode_utf8(#[trigger] wrapper@.args[i]) by {}
                        assert(crate::text::all_valid_utf8(wrapper@.args));
                    }
                    Ok(args)
                },
                None => {
                    proof {
                        if crate::text::all_valid_utf8(wrapper@.args) {
                            let i = choose|i: int|
                                0 <= i < wrapper@.args.len() && !valid_utf8(wrapper@.args[i]);
                            assert(valid_utf8(wrapper@.args[i]));
                            assert(false);
                        }
                    }
                    Err(FusenError::Info("invalid utf-8 body".to_owned()))
                },
            }
        },
    }
}

} // verus!
