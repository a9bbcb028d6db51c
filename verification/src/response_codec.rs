//! The response codec: on the server, turns a completed Invocation
//! Context into an HTTP response (status, content-type, body frames);
//! on the client, turns a received HTTP response back into the result
//! string or a typed error.
//!
//! The gRPC path carries the result in a framed `TripleResponseWrapper`
//! followed by `grpc-status` / `grpc-message` trailers; the JSON path
//! carries the result bytes in one data frame.

use vstd::prelude::*;
use vstd::string::StringExecFns;
use vstd::utf8::{decode_utf8, encode_utf8, valid_utf8};

use crate::context::{codec_of_content_type, spec_codec_of_content_type, CodecType, FusenContext,
    ResponseState};
use crate::error::{err_view, ErrView, FusenError};
use crate::frame::{first_value, Frame, Headers};
use crate::proto::{decode_grpc_frame, encode_grpc_frame, sp_grpc_frame, spec_grpc_frame};
use crate::text::{dec_digits, string_from_utf8, u16_to_string};
use crate::triple::{decode_triple_response, encode_triple_response, spec_decode_response,
    spec_encode_response, TripleResponseView, TripleResponseWrapper};

verus! {

/// The model of one HTTP response: status code, headers, body frames.
pub struct HttpResponse {
    pub status: u16,
    pub headers: Headers,
    pub frames: Vec<Frame>,
}

/// The gRPC status text an error maps to.
pub open spec fn spec_status_text(e: ErrView) -> Seq<char> {
    match e {
        ErrView::Null => "90"@,
        ErrView::NotFind(_) => "91"@,
        ErrView::Info(_) => "92"@,
    }
}

/// The gRPC message text an error maps to.
pub open spec fn spec_status_message(e: ErrView) -> Seq<char> {
    match e {
        ErrView::Null => "null value"@,
        ErrView::NotFind(m) => m,
        ErrView::Info(m) => m,
    }
}

/// The frame is a trailers frame carrying exactly `grpc-status` and
/// `grpc-message` with the given values.
pub open spec fn spec_status_trailers(f: Frame, st: Seq<char>, msg: Seq<char>) -> bool {
    &&& f is Trailers
    &&& f->Trailers_0.entries@.len() == 2
    &&& f->Trailers_0.entries@[0].0@ == "grpc-status"@
    &&& f->Trailers_0.entries@[0].1@ == st
    &&& f->Trailers_0.entries@[1].0@ == "grpc-message"@
    &&& f->Trailers_0.entries@[1].1@ == msg
}

/// The wire payload of a successful gRPC response carrying `res`.
pub open spec fn spec_response_payload(res: Seq<char>) -> Seq<u8> {
    spec_encode_response(
        TripleResponseView {
            serialize_type: "fastjson2"@,
            data: encode_utf8(res),
            res_type: Seq::<char>::empty(),
        },
    )
}

/// Scans body frames in arrival order, as the client does: a trailers
/// frame decides the call (missing `grpc-status` is an error, `"0"` ends
/// the scan, anything else maps to the error taxonomy); data frames are
/// collected, and the first one is the body.
pub open spec fn spec_scan(frames: Seq<Frame>) -> Result<Option<Seq<u8>>, ErrView>
    decreases frames.len(),
{
    if frames.len() == 0 {
        Ok(None)
    } else {
        match frames[0] {
            Frame::Data(d) => match spec_scan(frames.drop_first()) {
                Ok(_) => Ok(Some(d@)),
                Err(e) => Err(e),
            },
            Frame::Trailers(h) => match first_value(h.entries@, "grpc-status"@) {
                None => Err(ErrView::Info("error trailers"@)),
                Some(s) => if s == "0"@ {
                    Ok(None)
                } else {
                    let msg = match first_value(h.entries@, "grpc-message"@) {
                        Some(m) => m,
                        None => "grpc-status="@ + s,
                    };
                    if s == "90"@ {
                        Err(ErrView::Null)
                    } else if s == "91"@ {
                        Err(ErrView::NotFind(msg))
                    } else {
                        Err(ErrView::Info(msg))
                    }
                },
            },
        }
    }
}

/// What the client decode returns for one HTTP response: the result
/// string, or the error the taxonomy assigns.
pub open spec fn spec_client_decode(status: u16, headers: Seq<(String, String)>, frames: Seq<
    Frame,
>) -> Result<Seq<char>, ErrView> {
    if status < 200 || status > 299 {
        Err(ErrView::Info("err code : "@ + dec_digits(status as nat)))
    } else {
        match spec_scan(frames) {
            Err(e) => Err(e),
            Ok(None) => Err(ErrView::Info("empty frame"@)),
            Ok(Some(d)) => {
                let codec = match first_value(headers, "content-type"@) {
                    Some(v) => spec_codec_of_content_type(v),
                    None => CodecType::Json,
                };
                match codec {
                    CodecType::Json => if valid_utf8(d) {
                        Ok(decode_utf8(d))
                    } else {
                        Err(ErrView::Info("invalid utf-8 body"@))
                    },
                    CodecType::Grpc => match sp_grpc_frame(d) {
                        None => Err(ErrView::Info("grpc frame err"@)),
                        Some(p) => match spec_decode_response(p) {
                            None => Err(ErrView::Info("grpc decode err"@)),
                            Some(w) => if valid_utf8(w.data) {
                                Ok(decode_utf8(w.data))
                            } else {
                                Err(ErrView::Info("invalid utf-8 body"@))
                            },
                        },
                    },
                }
            },
        }
    }
}

/// Law: what one `grpc-status` trailer decides — `"0"` ends the scan
/// successfully, `"90"` surfaces `Null`, `"91"` surfaces `NotFind`, and
/// any other status surfaces `Info`.
pub proof fn lemma_grpc_status_mapping(h: Headers, s: Seq<char>)
    requires
        first_value(h.entries@, "grpc-status"@) == Some(s),
    ensures
        ({
            let sc = spec_scan(seq![Frame::Trailers(h)]);
            let msg = match first_value(h.entries@, "grpc-message"@) {
                Some(m) => m,
                None => "grpc-status="@ + s,
            };
            &&& s == "0"@ ==> sc == Ok::<Option<Seq<u8>>, ErrView>(None)
            &&& s == "90"@ && s != "0"@ ==> sc == Err::<Option<Seq<u8>>, ErrView>(ErrView::Null)
            &&& s == "91"@ && s != "0"@ && s != "90"@ ==> sc == Err::<Option<Seq<u8>>, ErrView>(
                ErrView::NotFind(msg),
            )
            &&& s != "0"@ && s != "90"@ && s != "91"@ ==> sc == Err::<Option<Seq<u8>>, ErrView>(
                ErrView::Info(msg),
            )
        }),
{
    let frames = seq![Frame::Trailers(h)];
    assert(frames[0] == Frame::Trailers(h));
}

/// The server and client half of the response path.
pub struct ResponseHandler {}

impl ResponseHandler {
    pub fn new() -> (r: Self) {
        ResponseHandler {  }
    }

    /// Server side: encodes a completed context into an HTTP response.
    ///
    /// JSON: one data frame with the result bytes, or the literal
    /// `null` for a `Null` error; any other error short-circuits to the
    /// caller. gRPC: a framed `TripleResponseWrapper` data frame on
    /// success, then `grpc-status` / `grpc-message` trailers; an error
    /// sends trailers only, with the taxonomy's status.
    pub fn encode(&self, context: FusenContext) -> (r: Result<HttpResponse, FusenError>)
        requires
            context.response.state is Done,
        ensures
            r matches Ok(hr) ==> hr.status == 200 && hr.headers.entries@.len() == 1
                && hr.headers.entries@[0].0@ == "content-type"@ && hr.headers.entries@[0].1@ == (
            if context.meta_data.codec is Json {
                "application/json"@
            } else {
                "application/grpc"@
            }),
            context.meta_data.codec is Json ==> match context.response.state {
                ResponseState::Done(Ok(res)) => r matches Ok(hr) && hr.frames@.len() == 1
                    && hr.frames@[0].is_data() && hr.frames@[0].spec_data() == encode_utf8(res@),
                ResponseState::Done(Err(FusenError::Null)) => r matches Ok(hr) && hr.frames@.len()
                    == 1 && hr.frames@[0].is_data() && hr.frames@[0].spec_data() == encode_utf8(
                    "null"@,
                ),
                ResponseState::Done(Err(e)) => r matches Err(e2) && e2 == e,
                ResponseState::Pending => true,
            },
            context.meta_data.codec is Grpc ==> match context.response.state {
                ResponseState::Done(Ok(res)) => {
                    let payload = spec_response_payload(res@);
                    &&& payload.len() < 0x100000000 ==> (r matches Ok(hr) && hr.frames@.len() == 2
                        && hr.frames@[0].is_data() && hr.frames@[0].spec_data() == spec_grpc_frame(
                        payload,
                    ) && spec_status_trailers(hr.frames@[1], "0"@, "success"@))
                    &&& payload.len() >= 0x100000000 ==> (r matches Err(e) && e is Info)
                },
                ResponseState::Done(Err(e)) => r matches Ok(hr) && hr.frames@.len() == 1
                    && spec_status_trailers(
                    hr.frames@[0],
                    spec_status_text(err_view(e)),
                    spec_status_message(err_view(e)),
                ),
                ResponseState::Pending => true,
            },
    {
        let is_json = match context.meta_data.codec {
            CodecType::Json => true,
            CodecType::Grpc => false,
        };
        let mut frames: Vec<Frame> = Vec::new();
        if is_json {
            match context.response.state {
                ResponseState::Done(Ok(res)) => {
                    frames.push(Frame::Data(vstd::slice::slice_to_vec(res.as_str().as_bytes())));
                },
                ResponseState::Done(Err(e)) => {
                    match e {
                        FusenError::Null => {
                            frames.push(
                                Frame::Data(vstd::slice::slice_to_vec("null".as_bytes())),
                            );
                        },
                        _ => {
                            return Err(e);
                        },
                    }
                },
                ResponseState::Pending => {
                    proof {
                        assert(false);
                    }
                },
            }
        } else {
            match context.response.state {
                ResponseState::Done(Ok(res)) => {
                    let wrapper = TripleResponseWrapper::form(res);
                    let payload = encode_triple_response(&wrapper);
                    match encode_grpc_frame(payload.as_slice()) {
                        Some(framed) => {
                            frames.push(Frame::Data(framed));
                        },
                        None => {
                            return Err(FusenError::Info("body too large".to_owned()));
                        },
                    }
                    let mut trailers = Headers::new();
                    trailers.push("grpc-status".to_owned(), "0".to_owned());
                    trailers.push("grpc-message".to_owned(), "success".to_owned());
                    frames.push(Frame::Trailers(trailers));
                },
                ResponseState::Done(Err(e)) => {
                    let (status, message) = match e {
                        FusenError::Null => ("90".to_owned(), "null value".to_owned()),
                        FusenError::NotFind(msg) => ("91".to_owned(), msg),
                        FusenError::Info(msg) => ("92".to_owned(), msg),
                    };
                    let mut trailers = Headers::new();
                    trailers.push("grpc-status".to_owned(), status);
                    trailers.push("grpc-message".to_owned(), message);
                    frames.push(Frame::Trailers(trailers));
                },
                ResponseState::Pending => {
                    proof {
                        assert(false);
                    }
                },
            }
        }
        let mut headers = Headers::new();
        let content_type = if is_json {
            "application/json".to_owned()
        } else {
            "application/grpc".to_owned()
        };
        headers.push("content-type".to_owned(), content_type);
        Ok(HttpResponse { status: 200, headers, frames })
    }

    /// Client side: decodes an HTTP response into the result string or
    /// the error the taxonomy assigns; mirrors [`spec_client_decode`].
    pub fn decode(&self, status: u16, headers: &Headers, frames: &Vec<Frame>) -> (r: Result<
        String,
        FusenError,
    >)
        ensures
            ({
                let sd = spec_client_decode(status, headers.entries@, frames@);
                match r {
                    Ok(s) => sd == Ok::<Seq<char>, ErrView>(s@),
                    Err(e) => sd == Err::<Seq<char>, ErrView>(err_view(e)),
                }
            }),
    {
        if status < 200 || status > 299 {
            let mut msg = "err code : ".to_owned();
            msg.append(u16_to_string(status).as_str());
            return Err(FusenError::Info(msg));
        }
        let status_key = "grpc-status".to_owned();
        let message_key = "grpc-message".to_owned();
        let mut first_idx: Option<usize> = None;
        let mut i: usize = 0;
        proof {
            assert(frames@.skip(0) =~= frames@);
        }
        loop
            invariant_except_break
                200 <= status <= 299,
                status_key@ == "grpc-status"@,
                message_key@ == "grpc-message"@,
                i <= frames@.len(),
                match first_idx {
                    Some(j) => j < i && frames@[j as int].is_data() && spec_scan(frames@) == (
                    match spec_scan(frames@.skip(i as int)) {
                        Ok(_) => Ok::<Option<Seq<u8>>, ErrView>(
                            Some(frames@[j as int].spec_data()),
                        ),
                        Err(e) => Err::<Option<Seq<u8>>, ErrView>(e),
                    }),
                    None => spec_scan(frames@) == spec_scan(frames@.skip(i as int)),
                },
            ensures
                match first_idx {
                    Some(j) => j < frames@.len() && frames@[j as int].is_data() && spec_scan(
                        frames@,
                    ) == Ok::<Option<Seq<u8>>, ErrView>(Some(frames@[j as int].spec_data())),
                    None => spec_scan(frames@) == Ok::<Option<Seq<u8>>, ErrView>(None),
                },
            decreases frames@.len() - i,
        {
            if i == frames.len() {
                proof {
                    assert(frames@.skip(i as int) =~= Seq::<Frame>::empty());
                }
                break ;
            }
            proof {
                assert(frames@.skip(i as int)[0] == frames@[i as int]);
                assert(frames@.skip(i as int).drop_first() =~= frames@.skip(i as int + 1));
            }
            match &frames[i] {
                Frame::Data(_) => {
                    if first_idx.is_none() {
                        first_idx = Some(i);
                    }
                },
                Frame::Trailers(h) => {
                    match h.get(&status_key) {
                        None => {
                            proof {
                                assert(first_value(h.entries@, "grpc-status"@) is None);
                                assert(spec_scan(frames@.skip(i as int)) == Err::<
                                    Option<Seq<u8>>,
                                    ErrView,
                                >(ErrView::Info("error trailers"@)));
                            }
                            return Err(FusenError::Info("error trailers".to_owned()));
                        },
                        Some(sv) => {
                            let zero = "0".to_owned();
                            if *sv == zero {
                                proof {
                                    assert(spec_scan(frames@.skip(i as int)) == Ok::<
                                        Option<Seq<u8>>,
                                        ErrView,
                                    >(None));
                                }
                                break ;
                            }
                            let msg: String = match h.get(&message_key) {
                                Some(m) => m.clone(),
                                None => {
                                    let mut m = "grpc-status=".to_owned();
                                    m.append(sv.as_str());
                                    m
                                },
                            };
                            let ninety = "90".to_owned();
                            let ninety_one = "91".to_owned();
                            if *sv == ninety {
                                return Err(FusenError::Null);
                            } else if *sv == ninety_one {
                                return Err(FusenError::NotFind(msg));
                            } else {
                                return Err(FusenError::Info(msg));
                            }
                        },
                    }
                },
            }
            i += 1;
        }
        let j = match first_idx {
            Some(j) => j,
            None => {
                return Err(FusenError::Info("empty frame".to_owned()));
            },
        };
        let content_type_key = "content-type".to_owned();
        let codec = match headers.get(&content_type_key) {
            Some(v) => codec_of_content_type(v),
            None => CodecType::Json,
        };
        match &frames[j] {
            Frame::Trailers(_) => {
                proof {
                    assert(false);
                }
                Err(FusenError::Info("empty frame".to_owned()))
            },
            Frame::Data(d) => {
                match codec {
                    CodecType::Json => {
                        match string_from_utf8(vstd::slice::slice_to_vec(d.as_slice())) {
                            Some(s) => Ok(s),
                            None => Err(FusenError::Info("invalid utf-8 body".to_owned())),
                        }
                    },
                    CodecType::Grpc => {
                        match decode_grpc_frame(d.as_slice()) {
                            None => Err(FusenError::Info("grpc frame err".to_owned())),
                            Some(p) => {
                                match decode_triple_response(p.as_slice()) {
                                    None => Err(FusenError::Info("grpc decode err".to_owned())),
                                    Some(w) => {
                                        match string_from_utf8(w.data) {
                                            Some(s) => Ok(s),
                                            None => Err(
                                                FusenError::Info("invalid utf-8 body".to_owned()),
                                            ),
                                        }
                                    },
                                }
                            },
                        }
                    },
                }
            },
        }
    }
}

} // verus!
