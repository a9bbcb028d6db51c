use fusen::aspect::select_resource;
use fusen::context::{FusenContext, FusenRequest, FusenResponse, MetaData, ResponseState};
use fusen::frame::Frame;
use fusen::request_codec::request_path;
use fusen::context::{codec_of_content_type, codec_of_protocol, CodecType, ContextInfo,
    ProtocolKind};
use fusen::error::FusenError;
use fusen::frame::Headers;
use fusen::register::{Category, RegisterBuilder, Resource, ResourceInfo, RouteCache};
use fusen::server::{resource_of_server, FusenServer, Protocol, ServerInfo};
use fusen::text::u16_to_string;

fn resource(name: &str, ip: &str) -> Resource {
    Resource {
        server_name: name.to_string(),
        category: Category::Server,
        group: None,
        version: None,
        methods: vec!["sayHello".to_string()],
        ip: ip.to_string(),
        port: Some("8080".to_string()),
        params: Vec::new(),
    }
}

#[test]
fn codec_selection_per_protocol() {
    assert!(matches!(codec_of_protocol(ProtocolKind::Fusen), CodecType::Json));
    assert!(matches!(codec_of_protocol(ProtocolKind::Dubbo), CodecType::Grpc));
    assert!(matches!(codec_of_protocol(ProtocolKind::SpringCloud), CodecType::Json));
}

#[test]
fn codec_selection_per_content_type() {
    let grpc = "application/grpc".to_string();
    let json = "application/json".to_string();
    let other = "text/plain".to_string();
    assert!(matches!(codec_of_content_type(&grpc), CodecType::Grpc));
    assert!(matches!(codec_of_content_type(&json), CodecType::Json));
    assert!(matches!(codec_of_content_type(&other), CodecType::Json));
}

#[test]
fn handler_key_with_and_without_version() {
    let with = ContextInfo {
        package: "com.example".to_string(),
        class_name: "DemoService".to_string(),
        method_name: "m".to_string(),
        version: Some("1.0".to_string()),
        group: None,
    };
    assert_eq!(with.get_handler_key(), "DemoService:1.0");
    let without = ContextInfo { version: None, ..with };
    assert_eq!(without.get_handler_key(), "DemoService");
}

#[test]
fn headers_get_returns_first_value() {
    let mut h = Headers::new();
    h.push("x-request-id".to_string(), "a".to_string());
    h.push("x-request-id".to_string(), "b".to_string());
    let key = "x-request-id".to_string();
    assert_eq!(h.get(&key).unwrap().as_str(), "a");
    let missing = "accept".to_string();
    assert!(h.get(&missing).is_none());
}

#[test]
fn dispatch_finds_bound_server() {
    let info = ServerInfo {
        id: "DemoService".to_string(),
        version: Some("1.0".to_string()),
        methods: vec!["sayHello".to_string()],
    };
    let server = FusenServer::build().add_fusen_server(info);
    let key = "DemoService:1.0".to_string();
    let found = server.dispatch(&key).unwrap();
    assert_eq!(found.id, "DemoService");
}

#[test]
fn dispatch_unknown_key_is_not_find() {
    let server = FusenServer::build();
    let key = "Nobody".to_string();
    let r = server.dispatch(&key);
    assert_eq!(r.err().unwrap(), FusenError::NotFind("Nobody".to_string()));
}

#[test]
fn builder_accumulates_configuration() {
    let server = FusenServer::build()
        .add_protocol(Protocol { kind: ProtocolKind::Fusen, port: "8081".to_string() })
        .add_protocol(Protocol { kind: ProtocolKind::Dubbo, port: "8082".to_string() })
        .add_register_builder(RegisterBuilder {
            addr: "127.0.0.1:8848".to_string(),
            app_name: Some("fusen-service".to_string()),
            protocol: ProtocolKind::Fusen,
        });
    assert_eq!(server.protocol.len(), 2);
    assert_eq!(server.register_builder.len(), 1);
}

#[test]
fn advertised_resource_matches_server_info() {
    let info = ServerInfo {
        id: "DemoService".to_string(),
        version: Some("1.0".to_string()),
        methods: vec!["sayHello".to_string(), "divide".to_string()],
    };
    let r = resource_of_server(info, "10.0.0.1".to_string(), Some("8081".to_string()));
    assert_eq!(r.server_name, "DemoService");
    assert!(matches!(r.category, Category::Server));
    assert_eq!(r.version, Some("1.0".to_string()));
    assert_eq!(r.methods, vec!["sayHello".to_string(), "divide".to_string()]);
    assert_eq!(r.ip, "10.0.0.1");
    assert_eq!(r.port, Some("8081".to_string()));
}

#[test]
fn route_cache_returns_latest_snapshot() {
    let mut cache = RouteCache::new();
    let key = "DemoService".to_string();
    cache.update(key.clone(), ResourceInfo { resources: vec![resource("DemoService", "10.0.0.1")] });
    cache.update(
        key.clone(),
        ResourceInfo {
            resources: vec![resource("DemoService", "10.0.0.2"), resource("DemoService", "10.0.0.3")],
        },
    );
    let snapshot = cache.lookup(&key).unwrap();
    assert_eq!(snapshot.resources.len(), 2);
    assert_eq!(snapshot.resources[0].ip, "10.0.0.2");
}

#[test]
fn route_cache_keys_are_independent() {
    let mut cache = RouteCache::new();
    let a = "A".to_string();
    let b = "B".to_string();
    cache.update(a.clone(), ResourceInfo { resources: vec![resource("A", "10.0.0.1")] });
    cache.update(b.clone(), ResourceInfo { resources: Vec::new() });
    assert_eq!(cache.lookup(&a).unwrap().resources.len(), 1);
    assert_eq!(cache.lookup(&b).unwrap().resources.len(), 0);
    let c = "C".to_string();
    assert!(cache.lookup(&c).is_none());
}

#[test]
fn select_resource_on_empty_snapshot_is_no_provider() {
    let empty = ResourceInfo { resources: Vec::new() };
    let r = select_resource(&empty, 0);
    assert_eq!(r.err().unwrap(), FusenError::Info("no provider".to_string()));
}

#[test]
fn select_resource_wraps_around() {
    let info = ResourceInfo {
        resources: vec![resource("S", "10.0.0.1"), resource("S", "10.0.0.2")],
    };
    assert_eq!(select_resource(&info, 0).unwrap().ip, "10.0.0.1");
    assert_eq!(select_resource(&info, 1).unwrap().ip, "10.0.0.2");
    assert_eq!(select_resource(&info, 5).unwrap().ip, "10.0.0.2");
}

#[test]
fn request_paths_per_protocol() {
    let ci = ContextInfo {
        package: "com.example".to_string(),
        class_name: "DemoService".to_string(),
        method_name: "sayHelloV2".to_string(),
        version: None,
        group: None,
    };
    assert_eq!(request_path(&ci, ProtocolKind::Fusen), "/DemoService/sayHelloV2");
    assert_eq!(request_path(&ci, ProtocolKind::Dubbo), "/com.example.DemoService/sayHelloV2");
    assert_eq!(request_path(&ci, ProtocolKind::SpringCloud), "/sayHelloV2");
}

#[test]
fn request_body_per_codec() {
    let ci = ContextInfo {
        package: "com.krpc".to_string(),
        class_name: "TestServer".to_string(),
        method_name: "doRun1".to_string(),
        version: None,
        group: None,
    };
    let mut ctx = FusenContext {
        context_info: ci,
        meta_data: MetaData { codec: CodecType::Json },
        request: FusenRequest {
            headers: Headers::new(),
            args: vec!["{\"str\":\"a\"}".to_string(), "{\"str\":\"b\"}".to_string()],
        },
        response: FusenResponse { state: ResponseState::Pending },
    };
    let json_body = fusen::request_codec::encode_request_body(&ctx).unwrap();
    assert_eq!(json_body, b"[\"{\\\"str\\\":\\\"a\\\"}\",\"{\\\"str\\\":\\\"b\\\"}\"]".to_vec());
    ctx.meta_data = MetaData { codec: CodecType::Grpc };
    let grpc_body = fusen::request_codec::encode_request_body(&ctx).unwrap();
    // gRPC framing: flag 0, 4-byte big-endian length, then the envelope.
    assert_eq!(grpc_body[0], 0);
    let len = u32::from_be_bytes([grpc_body[1], grpc_body[2], grpc_body[3], grpc_body[4]]);
    assert_eq!(len as usize, grpc_body.len() - 5);
    let wrapper = fusen::triple::decode_triple_request(&grpc_body[5..]).unwrap();
    assert_eq!(wrapper.serialize_type, "fastjson2");
    assert_eq!(wrapper.args, vec![b"{\"str\":\"a\"}".to_vec(), b"{\"str\":\"b\"}".to_vec()]);
}

#[test]
fn server_decodes_grpc_body_split_across_frames() {
    let mut ctx = FusenContext {
        context_info: ContextInfo {
            package: "com.krpc".to_string(),
            class_name: "TestServer".to_string(),
            method_name: "doRun1".to_string(),
            version: None,
            group: None,
        },
        meta_data: MetaData { codec: CodecType::Grpc },
        request: FusenRequest {
            headers: fusen::frame::Headers::new(),
            args: vec!["{\"str\":\"a\"}".to_string(), "{\"str\":\"b\"}".to_string()],
        },
        response: FusenResponse { state: ResponseState::Pending },
    };
    let body = fusen::request_codec::encode_request_body(&ctx).unwrap();
    let (first, second) = body.split_at(3);
    let frames = vec![Frame::Data(first.to_vec()), Frame::Data(second.to_vec())];
    let args = fusen::request_codec::decode_request_body(CodecType::Grpc, &frames).unwrap();
    assert_eq!(args, vec!["{\"str\":\"a\"}".to_string(), "{\"str\":\"b\"}".to_string()]);
    ctx.meta_data = MetaData { codec: CodecType::Json };
    let json_body = fusen::request_codec::encode_request_body(&ctx).unwrap();
    let json_frames = vec![Frame::Data(json_body)];
    let json_args = fusen::request_codec::decode_request_body(CodecType::Json, &json_frames)
        .unwrap();
    assert_eq!(json_args, vec!["{\"str\":\"a\"}".to_string(), "{\"str\":\"b\"}".to_string()]);
}

#[test]
fn numeric_status_of_each_error() {
    assert_eq!(FusenError::Null.grpc_status(), 90);
    assert_eq!(FusenError::NotFind("x".to_string()).grpc_status(), 91);
    assert_eq!(FusenError::Info("x".to_string()).grpc_status(), 92);
}

#[test]
fn decimal_rendering_of_status_codes() {
    assert_eq!(u16_to_string(0), "0");
    assert_eq!(u16_to_string(7), "7");
    assert_eq!(u16_to_string(404), "404");
    assert_eq!(u16_to_string(65535), "65535");
}
