use fusen::context::{CodecType, ContextInfo, FusenContext, FusenRequest, FusenResponse, MetaData,
    ResponseState};
use fusen::error::FusenError;
use fusen::frame::{Frame, Headers};
use fusen::json_codec::JsonBodyCodec;
use fusen::proto::{decode_grpc_frame, encode_grpc_frame, push_varint};
use fusen::response_codec::ResponseHandler;
use fusen::triple::{decode_triple_request, decode_triple_response, encode_triple_request,
    encode_triple_response, TripleRequestWrapper, TripleResponseWrapper};

fn context_with(codec: CodecType, outcome: Result<String, FusenError>) -> FusenContext {
    let mut ctx = FusenContext {
        context_info: ContextInfo {
            package: "com.example".to_string(),
            class_name: "DemoService".to_string(),
            method_name: "sayHelloV2".to_string(),
            version: None,
            group: None,
        },
        meta_data: MetaData { codec },
        request: FusenRequest { headers: Headers::new(), args: Vec::new() },
        response: FusenResponse { state: ResponseState::Pending },
    };
    ctx.set_response(outcome);
    ctx
}

fn data_bytes(frame: &Frame) -> &Vec<u8> {
    match frame {
        Frame::Data(d) => d,
        Frame::Trailers(_) => panic!("expected a data frame"),
    }
}

fn trailer_entries(frame: &Frame) -> &Vec<(String, String)> {
    match frame {
        Frame::Trailers(h) => &h.entries,
        Frame::Data(_) => panic!("expected a trailers frame"),
    }
}

#[test]
fn json_encode_singleton_is_verbatim() {
    let codec = JsonBodyCodec::new();
    let out = codec.encode(&vec!["hello".to_string()]).unwrap();
    assert_eq!(out, b"hello".to_vec());
}

#[test]
fn json_decode_unquoted_adds_quotes() {
    let codec = JsonBodyCodec::new();
    let body = vec![Frame::Data(b"hello".to_vec())];
    let out = codec.decode(&body).unwrap();
    assert_eq!(out, vec!["\"hello\"".to_string()]);
}

#[test]
fn json_round_trip_quoted_singleton() {
    let codec = JsonBodyCodec::new();
    let list = vec!["\"hello\"".to_string()];
    let bytes = codec.encode(&list).unwrap();
    assert_eq!(bytes, b"\"hello\"".to_vec());
    let out = codec.decode(&vec![Frame::Data(bytes)]).unwrap();
    assert_eq!(out, list);
}

#[test]
fn json_encode_list_is_json_array() {
    let codec = JsonBodyCodec::new();
    let out = codec.encode(&vec!["a".to_string(), "b".to_string()]).unwrap();
    assert_eq!(out, b"[\"a\",\"b\"]".to_vec());
}

#[test]
fn json_decode_array_body() {
    let codec = JsonBodyCodec::new();
    let body = vec![Frame::Data(b"[\"a\",\"b\"]".to_vec())];
    let out = codec.decode(&body).unwrap();
    assert_eq!(out, vec!["a".to_string(), "b".to_string()]);
}

#[test]
fn json_round_trip_multi_element() {
    let codec = JsonBodyCodec::new();
    let list = vec!["{\"str\":\"a\"}".to_string(), "xyz".to_string()];
    let bytes = codec.encode(&list).unwrap();
    let out = codec.decode(&vec![Frame::Data(bytes)]).unwrap();
    assert_eq!(out, list);
}

#[test]
fn json_encode_empty_list_fails() {
    let codec = JsonBodyCodec::new();
    let r = codec.encode(&Vec::new());
    assert!(matches!(r, Err(FusenError::Info(_))));
}

#[test]
fn json_decode_empty_body_fails() {
    let codec = JsonBodyCodec::new();
    assert!(matches!(codec.decode(&Vec::new()), Err(FusenError::Info(_))));
    let trailers_first = vec![Frame::Trailers(Headers::new())];
    assert!(matches!(codec.decode(&trailers_first), Err(FusenError::Info(_))));
}

#[test]
fn json_decode_bad_array_fails() {
    let codec = JsonBodyCodec::new();
    let body = vec![Frame::Data(b"[1,2]".to_vec())];
    assert!(matches!(codec.decode(&body), Err(FusenError::Info(_))));
}

#[test]
fn varint_two_bytes() {
    let mut out: Vec<u8> = Vec::new();
    push_varint(&mut out, 300);
    assert_eq!(out, vec![0xACu8, 0x02u8]);
}

#[test]
fn grpc_frame_exact_bytes_and_back() {
    let framed = encode_grpc_frame(b"abc").unwrap();
    assert_eq!(framed, vec![0u8, 0, 0, 0, 3, 97, 98, 99]);
    let back = decode_grpc_frame(&framed).unwrap();
    assert_eq!(back, b"abc".to_vec());
}

#[test]
fn grpc_frame_rejects_bad_prefix() {
    assert!(decode_grpc_frame(&[0, 0, 0, 0]).is_none());
    assert!(decode_grpc_frame(&[1, 0, 0, 0, 1, 7]).is_none());
    assert!(decode_grpc_frame(&[0, 0, 0, 0, 2, 7]).is_none());
}

#[test]
fn triple_request_exact_bytes() {
    let w = TripleRequestWrapper {
        serialize_type: "fastjson2".to_string(),
        args: vec![b"hi".to_vec()],
        arg_types: vec!["T".to_string()],
    };
    let mut expected: Vec<u8> = Vec::new();
    expected.extend_from_slice(&[0x0A, 9]);
    expected.extend_from_slice(b"fastjson2");
    expected.extend_from_slice(&[0x12, 2]);
    expected.extend_from_slice(b"hi");
    expected.extend_from_slice(&[0x1A, 1]);
    expected.extend_from_slice(b"T");
    assert_eq!(encode_triple_request(&w), expected);
}

#[test]
fn triple_request_round_trip() {
    let w = TripleRequestWrapper::get_request(vec![
        "{\"str\":\"a\"}".to_string(),
        "{\"str\":\"b\"}".to_string(),
    ]);
    let bytes = encode_triple_request(&w);
    let back = decode_triple_request(&bytes).unwrap();
    assert_eq!(back.serialize_type, "fastjson2");
    assert_eq!(back.args, vec![b"{\"str\":\"a\"}".to_vec(), b"{\"str\":\"b\"}".to_vec()]);
    assert_eq!(back.arg_types, vec!["org.apache.dubbo.springboot.demo.ReqDto".to_string()]);
    assert_eq!(back.get_req(), vec!["{\"str\":\"a\"}".to_string(), "{\"str\":\"b\"}".to_string()]);
}

#[test]
fn triple_request_round_trip_empty_fields() {
    let w = TripleRequestWrapper {
        serialize_type: String::new(),
        args: Vec::new(),
        arg_types: Vec::new(),
    };
    let bytes = encode_triple_request(&w);
    assert_eq!(bytes, Vec::<u8>::new());
    let back = decode_triple_request(&bytes).unwrap();
    assert_eq!(back.serialize_type, "");
    assert!(back.args.is_empty());
    assert!(back.arg_types.is_empty());
}

#[test]
fn triple_response_round_trip() {
    let w = TripleResponseWrapper::form("{\"str\":\"ok\"}".to_string());
    let bytes = encode_triple_response(&w);
    let back = decode_triple_response(&bytes).unwrap();
    assert_eq!(back.serialize_type, "fastjson2");
    assert_eq!(back.data, b"{\"str\":\"ok\"}".to_vec());
    assert_eq!(back.res_type, "");
}

#[test]
fn triple_decoder_rejects_trailing_bytes() {
    let w = TripleResponseWrapper::form("x".to_string());
    let mut bytes = encode_triple_response(&w);
    bytes.push(0);
    assert!(decode_triple_response(&bytes).is_none());
}

#[test]
fn triple_request_rejects_invalid_utf8_type() {
    // field 3 record whose payload is not valid UTF-8
    let bytes = vec![0x1Au8, 1, 0xFF];
    assert!(decode_triple_request(&bytes).is_none());
}

#[test]
fn server_encode_json_result() {
    let handler = ResponseHandler::new();
    let ctx = context_with(CodecType::Json, Ok("{\"str\":\"hello world\"}".to_string()));
    let hr = handler.encode(ctx).unwrap();
    assert_eq!(hr.status, 200);
    assert_eq!(
        hr.headers.entries,
        vec![("content-type".to_string(), "application/json".to_string())]
    );
    assert_eq!(hr.frames.len(), 1);
    assert_eq!(data_bytes(&hr.frames[0]), &b"{\"str\":\"hello world\"}".to_vec());
}

#[test]
fn server_encode_json_null() {
    let handler = ResponseHandler::new();
    let ctx = context_with(CodecType::Json, Err(FusenError::Null));
    let hr = handler.encode(ctx).unwrap();
    assert_eq!(data_bytes(&hr.frames[0]), &b"null".to_vec());
}

#[test]
fn server_encode_json_error_short_circuits() {
    let handler = ResponseHandler::new();
    let ctx = context_with(CodecType::Json, Err(FusenError::Info("boom".to_string())));
    let r = handler.encode(ctx);
    assert_eq!(r.err().unwrap(), FusenError::Info("boom".to_string()));
}

#[test]
fn server_encode_grpc_success_has_data_and_trailers() {
    let handler = ResponseHandler::new();
    let ctx = context_with(CodecType::Grpc, Ok("{\"str\":\"ok\"}".to_string()));
    let hr = handler.encode(ctx).unwrap();
    assert_eq!(
        hr.headers.entries,
        vec![("content-type".to_string(), "application/grpc".to_string())]
    );
    assert_eq!(hr.frames.len(), 2);
    let trailers = trailer_entries(&hr.frames[1]);
    assert_eq!(trailers[0], ("grpc-status".to_string(), "0".to_string()));
    assert_eq!(trailers[1], ("grpc-message".to_string(), "success".to_string()));
    let payload = decode_grpc_frame(data_bytes(&hr.frames[0])).unwrap();
    let wrapper = decode_triple_response(&payload).unwrap();
    assert_eq!(wrapper.data, b"{\"str\":\"ok\"}".to_vec());
}

#[test]
fn server_encode_grpc_null_sends_status_90() {
    let handler = ResponseHandler::new();
    let ctx = context_with(CodecType::Grpc, Err(FusenError::Null));
    let hr = handler.encode(ctx).unwrap();
    assert_eq!(hr.frames.len(), 1);
    let trailers = trailer_entries(&hr.frames[0]);
    assert_eq!(trailers[0], ("grpc-status".to_string(), "90".to_string()));
    assert_eq!(trailers[1], ("grpc-message".to_string(), "null value".to_string()));
}

#[test]
fn server_encode_grpc_not_find_sends_status_91() {
    let handler = ResponseHandler::new();
    let ctx = context_with(CodecType::Grpc, Err(FusenError::NotFind("no handler".to_string())));
    let hr = handler.encode(ctx).unwrap();
    let trailers = trailer_entries(&hr.frames[0]);
    assert_eq!(trailers[0], ("grpc-status".to_string(), "91".to_string()));
    assert_eq!(trailers[1], ("grpc-message".to_string(), "no handler".to_string()));
}

#[test]
fn server_encode_grpc_info_sends_status_92() {
    let handler = ResponseHandler::new();
    let ctx = context_with(CodecType::Grpc, Err(FusenError::Info("timeout".to_string())));
    let hr = handler.encode(ctx).unwrap();
    let trailers = trailer_entries(&hr.frames[0]);
    assert_eq!(trailers[0], ("grpc-status".to_string(), "92".to_string()));
    assert_eq!(trailers[1], ("grpc-message".to_string(), "timeout".to_string()));
}

fn grpc_headers() -> Headers {
    let mut h = Headers::new();
    h.push("content-type".to_string(), "application/grpc".to_string());
    h
}

fn json_headers() -> Headers {
    let mut h = Headers::new();
    h.push("content-type".to_string(), "application/json".to_string());
    h
}

#[test]
fn client_decode_grpc_round_trip() {
    let handler = ResponseHandler::new();
    let ctx = context_with(CodecType::Grpc, Ok("{\"str\":\"ok\"}".to_string()));
    let hr = handler.encode(ctx).unwrap();
    let out = handler.decode(hr.status, &hr.headers, &hr.frames).unwrap();
    assert_eq!(out, "{\"str\":\"ok\"}");
}

#[test]
fn client_decode_json_round_trip() {
    let handler = ResponseHandler::new();
    let ctx = context_with(CodecType::Json, Ok("{\"str\":\"hello world\"}".to_string()));
    let hr = handler.encode(ctx).unwrap();
    let out = handler.decode(hr.status, &hr.headers, &hr.frames).unwrap();
    assert_eq!(out, "{\"str\":\"hello world\"}");
}

#[test]
fn client_decode_null_status() {
    let handler = ResponseHandler::new();
    let ctx = context_with(CodecType::Grpc, Err(FusenError::Null));
    let hr = handler.encode(ctx).unwrap();
    let r = handler.decode(hr.status, &hr.headers, &hr.frames);
    assert_eq!(r.err().unwrap(), FusenError::Null);
}

#[test]
fn client_decode_not_find_status() {
    let handler = ResponseHandler::new();
    let ctx = context_with(CodecType::Grpc, Err(FusenError::NotFind("gone".to_string())));
    let hr = handler.encode(ctx).unwrap();
    let r = handler.decode(hr.status, &hr.headers, &hr.frames);
    assert_eq!(r.err().unwrap(), FusenError::NotFind("gone".to_string()));
}

#[test]
fn client_decode_other_status_is_info() {
    let handler = ResponseHandler::new();
    let mut trailers = Headers::new();
    trailers.push("grpc-status".to_string(), "7".to_string());
    trailers.push("grpc-message".to_string(), "denied".to_string());
    let frames = vec![Frame::Trailers(trailers)];
    let r = handler.decode(200, &grpc_headers(), &frames);
    assert_eq!(r.err().unwrap(), FusenError::Info("denied".to_string()));
}

#[test]
fn client_decode_other_status_without_message() {
    let handler = ResponseHandler::new();
    let mut trailers = Headers::new();
    trailers.push("grpc-status".to_string(), "7".to_string());
    let frames = vec![Frame::Trailers(trailers)];
    let r = handler.decode(200, &grpc_headers(), &frames);
    assert_eq!(r.err().unwrap(), FusenError::Info("grpc-status=7".to_string()));
}

#[test]
fn client_decode_trailers_without_status() {
    let handler = ResponseHandler::new();
    let frames = vec![Frame::Trailers(Headers::new())];
    let r = handler.decode(200, &grpc_headers(), &frames);
    assert_eq!(r.err().unwrap(), FusenError::Info("error trailers".to_string()));
}

#[test]
fn client_decode_empty_body() {
    let handler = ResponseHandler::new();
    let r = handler.decode(200, &json_headers(), &Vec::new());
    assert_eq!(r.err().unwrap(), FusenError::Info("empty frame".to_string()));
}

#[test]
fn client_decode_non_2xx_status() {
    let handler = ResponseHandler::new();
    let frames = vec![Frame::Data(b"ignored".to_vec())];
    let r = handler.decode(500, &json_headers(), &frames);
    assert_eq!(r.err().unwrap(), FusenError::Info("err code : 500".to_string()));
}

#[test]
fn client_decode_defaults_to_json_without_content_type() {
    let handler = ResponseHandler::new();
    let frames = vec![Frame::Data(b"plain".to_vec())];
    let out = handler.decode(200, &Headers::new(), &frames).unwrap();
    assert_eq!(out, "plain");
}

#[test]
fn client_decode_stops_at_success_trailers() {
    let handler = ResponseHandler::new();
    let mut trailers = Headers::new();
    trailers.push("grpc-status".to_string(), "0".to_string());
    let frames = vec![Frame::Data(b"body".to_vec()), Frame::Trailers(trailers)];
    let out = handler.decode(200, &json_headers(), &frames).unwrap();
    assert_eq!(out, "body");
}
