use tracer::common::{ApplicationConfig, Command, CommandCreate, Session};
use tracer::config::{Configuration, Environment};
use tracer::error::{ApplicationError, ApplicationErrorKind};
use tracer::http::user_agent;
use tracer::services::Logging;
use tracer::ws::message::Message;
use tracer::ws::packet::Packet;
use tracer::ws::request::{Request, StreamType};
use tracer::ws::transport::{Routed, Transport};
use tracer::ws::websocket::{bearer, WebSocketRequest};

fn test_configuration() -> Configuration {
    Configuration::new(Environment::new(
        "localhost:8080".to_string(),
        false,
        "a super long token".to_string(),
        "DEBUG".to_string(),
    ))
}

#[test]
fn config_read_eof() {
    let configuration = test_configuration();
    let host = configuration.environment().host();
    println!("host = {:?}", host);
}

#[test]
fn environment_urls() {
    let configuration = test_configuration();
    let environment = configuration.environment();
    assert_eq!(environment.ws_url(), "ws://localhost:8080");
    assert_eq!(environment.api_url(), "http://localhost:8080/api");
    assert_eq!(environment.token(), "a super long token");
    assert_eq!(environment.logging(), "DEBUG");

    let secure = Environment::new(
        "example.net".to_string(),
        true,
        "t".to_string(),
        "INFO".to_string(),
    );
    assert_eq!(secure.ws_url(), "wss://example.net");
    assert_eq!(secure.api_url(), "https://example.net/api");
}

#[test]
fn common_value_types() {
    let command = Command::new("31415".to_string());
    assert_eq!(command.id(), "31415");
    let create = CommandCreate::new("count".to_string());
    assert_eq!(create.name(), "count");
    let session = Session::new("sid".to_string(), "stoken".to_string());
    assert_eq!(session.id(), "sid");
    assert_eq!(session.token(), "stoken");
    let config = ApplicationConfig::new("./count.sh 5", "jumping_jacks");
    assert_eq!(config.executable(), "./count.sh 5");
    assert_eq!(config.name(), "jumping_jacks");
}

#[test]
fn error_kinds_and_labels() {
    let error = ApplicationError::transport("socket fell over");
    assert!(matches!(error.kind(), ApplicationErrorKind::Transport));
    assert_eq!(error.message(), "socket fell over");
    assert_eq!(error.kind().label(), "transport");
    assert_eq!(ApplicationError::command("x").kind().label(), "command");
    assert_eq!(ApplicationError::io("x").kind().label(), "io");
    assert_eq!(
        ApplicationError::configuration("x").kind().label(),
        "configuration issue"
    );
}

#[test]
fn user_agent_names_the_product() {
    assert_eq!(user_agent("dev"), "tracer/dev");
    assert_eq!(user_agent("1.2.3"), "tracer/1.2.3");
}

#[test]
fn logging_holds_its_level() {
    let logging = Logging::new("DEBUG");
    assert_eq!(logging.level(), "DEBUG");
}

#[test]
fn stream_and_request_labels() {
    assert_eq!(StreamType::Stdout.label(), "Stdout");
    assert_eq!(StreamType::Stderr.label(), "Stderr");
    assert_eq!(StreamType::Stdin.label(), "Stdin");
    assert_eq!(StreamType::Stdout.wire_name(), "stdout");
    let request = Request::Event { stream: StreamType::Stderr, message: "boom".to_string() };
    assert_eq!(request.describe(), "Event (Stderr): boom");
    assert_eq!(Request::Ping.describe(), "Ping");
    assert_eq!(Request::Authenticate("secret".to_string()).describe(), "Authenticate");
}

#[test]
fn upgrade_request_carries_the_headers() {
    let request =
        WebSocketRequest::new("ws://localhost:8080/ws/sessions/1", "tok", "dev").unwrap();
    assert_eq!(request.url(), "ws://localhost:8080/ws/sessions/1");
    assert_eq!(request.authorization(), "Bearer tok");
    assert_eq!(request.user_agent(), "tracer/dev");
    assert_eq!(request.subprotocol(), "tracer");
    assert!(WebSocketRequest::new("wss://example.net/ws", "tok", "dev").is_ok());
}

#[test]
fn malformed_url_is_a_configuration_error() {
    let error = match WebSocketRequest::new("http://localhost:8080", "tok", "dev") {
        Err(error) => error,
        Ok(_) => panic!("an http URL must be rejected"),
    };
    assert!(matches!(error.kind(), ApplicationErrorKind::Configuration));
    assert!(WebSocketRequest::new("", "tok", "dev").is_err());
    assert!(WebSocketRequest::new("ws://", "tok", "dev").is_err());
    assert!(WebSocketRequest::new("wss://", "tok", "dev").is_err());
    // a space, a control character, an empty host and a non-ASCII
    // character are not URI material
    assert!(WebSocketRequest::new("ws:// x", "tok", "dev").is_err());
    assert!(WebSocketRequest::new("ws://host name", "tok", "dev").is_err());
    assert!(WebSocketRequest::new("ws://host\n", "tok", "dev").is_err());
    assert!(WebSocketRequest::new("ws:///path-without-host", "tok", "dev").is_err());
    assert!(WebSocketRequest::new("ws://:8080", "tok", "dev").is_err());
    let error = match WebSocketRequest::new("ws://h\u{f6}st", "tok", "dev") {
        Err(error) => error,
        Ok(_) => panic!("a non-ASCII URL must be rejected"),
    };
    assert!(matches!(error.kind(), ApplicationErrorKind::Configuration));
}

#[test]
fn bearer_prefixes_the_token() {
    assert_eq!(bearer("abc"), "Bearer abc");
}

#[test]
fn route_prefers_the_heartbeat() {
    let transport = Transport::new();
    let frame = Message::Text("{\"packet\":\"pong\"}".to_string());
    assert!(matches!(transport.route(true, Some(frame)), Routed::Packet(Packet::Ping)));
    let frame = Message::Text("{\"packet\":\"pong\"}".to_string());
    assert!(matches!(transport.route(false, Some(frame)), Routed::Packet(Packet::Pong)));
}

#[test]
fn route_drops_bad_frames_and_ends_on_close() {
    let transport = Transport::new();
    // an unknown tag or a malformed frame is dropped, never fatal
    let frame = Message::Text("{\"packet\":\"unknown_tag\"}".to_string());
    assert!(matches!(transport.route(false, Some(frame)), Routed::Dropped));
    let frame = Message::Text("not json at all".to_string());
    assert!(matches!(transport.route(false, Some(frame)), Routed::Dropped));
    assert!(matches!(
        transport.route(false, Some(Message::Binary(vec![1, 2]))),
        Routed::Dropped
    ));
    // the close handshake and an exhausted source end the stream
    assert!(matches!(transport.route(false, Some(Message::Close)), Routed::Ended));
    assert!(matches!(transport.route(false, None), Routed::Ended));
}
