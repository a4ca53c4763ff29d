use tracer::ws::packet::Packet;
use tracer::ws::transport::Transport;

fn round_trip(packet: Packet) -> Option<Packet> {
    let transport = Transport::new();
    let encoded = transport.encode(packet).expect("every packet encodes");
    transport.decode(&encoded)
}

#[test]
fn encode_ping_exact() {
    let transport = Transport::new();
    assert_eq!(transport.encode(Packet::Ping), Some("{\"packet\":\"ping\"}".to_string()));
}

#[test]
fn encode_pong_exact() {
    let transport = Transport::new();
    assert_eq!(transport.encode(Packet::Pong), Some("{\"packet\":\"pong\"}".to_string()));
}

#[test]
fn encode_authenticate_exact() {
    let transport = Transport::new();
    assert_eq!(
        transport.encode(Packet::Authenticate("secret".to_string())),
        Some("{\"packet\":\"authenticate\",\"content\":\"secret\"}".to_string())
    );
}

#[test]
fn encode_command_output_exact() {
    let transport = Transport::new();
    assert_eq!(
        transport.encode(Packet::CommandOutput {
            stream: "stdout".to_string(),
            message: "hi".to_string(),
        }),
        Some(
            "{\"packet\":\"command_output\",\"content\":{\"stream\":\"stdout\",\"message\":\"hi\"}}"
                .to_string()
        )
    );
}

#[test]
fn encode_command_terminated_exact() {
    let transport = Transport::new();
    assert_eq!(
        transport.encode(Packet::CommandTerminated(0)),
        Some("{\"packet\":\"command_terminated\",\"content\":0}".to_string())
    );
    assert_eq!(
        transport.encode(Packet::CommandTerminated(4294967295)),
        Some("{\"packet\":\"command_terminated\",\"content\":4294967295}".to_string())
    );
}

#[test]
fn encode_escapes_message() {
    let transport = Transport::new();
    let encoded = transport
        .encode(Packet::AuthenticationFailed("a \"b\" \\ \n\t\u{1}".to_string()))
        .unwrap();
    assert_eq!(
        encoded,
        "{\"packet\":\"authentication_failed\",\"content\":\"a \\\"b\\\" \\\\ \\n\\t\\u0001\"}"
    );
}

#[test]
fn round_trip_every_variant() {
    assert!(matches!(round_trip(Packet::Ping), Some(Packet::Ping)));
    assert!(matches!(round_trip(Packet::Pong), Some(Packet::Pong)));
    assert!(matches!(
        round_trip(Packet::Authenticate("tok\"en\n".to_string())),
        Some(Packet::Authenticate(t)) if t == "tok\"en\n"
    ));
    assert!(matches!(
        round_trip(Packet::AuthenticationSuccessful),
        Some(Packet::AuthenticationSuccessful)
    ));
    assert!(matches!(
        round_trip(Packet::AuthenticationFailed("bad token".to_string())),
        Some(Packet::AuthenticationFailed(r)) if r == "bad token"
    ));
    assert!(matches!(
        round_trip(Packet::CommandOutput {
            stream: "stderr".to_string(),
            message: "x \\ \"y\" \r\u{8}\u{c}\u{1f}".to_string(),
        }),
        Some(Packet::CommandOutput { stream, message })
            if stream == "stderr" && message == "x \\ \"y\" \r\u{8}\u{c}\u{1f}"
    ));
    assert!(matches!(
        round_trip(Packet::CommandTerminated(137)),
        Some(Packet::CommandTerminated(137))
    ));
    assert!(matches!(round_trip(Packet::CommandTerminate), Some(Packet::CommandTerminate)));
    assert!(matches!(round_trip(Packet::CommandLaunched), Some(Packet::CommandLaunched)));
}

#[test]
fn decode_canonical_frames() {
    let transport = Transport::new();
    assert!(matches!(transport.decode("{\"packet\":\"ping\"}"), Some(Packet::Ping)));
    assert!(matches!(
        transport.decode("{\"packet\":\"authentication_failed\",\"content\":\"no\"}"),
        Some(Packet::AuthenticationFailed(r)) if r == "no"
    ));
    assert!(matches!(
        transport.decode("{\"packet\":\"command_terminated\",\"content\":42}"),
        Some(Packet::CommandTerminated(42))
    ));
    assert!(matches!(
        transport.decode("{\"packet\":\"command_terminate\"}"),
        Some(Packet::CommandTerminate)
    ));
}

#[test]
fn decode_malformed_is_none() {
    let transport = Transport::new();
    assert!(transport.decode("").is_none());
    assert!(transport.decode("{}").is_none());
    assert!(transport.decode("not json at all").is_none());
    assert!(transport.decode("{\"packet\":\"unknown_tag\"}").is_none());
    assert!(transport.decode("{\"packet\":\"ping\"").is_none());
    assert!(transport.decode("{\"packet\":\"ping\"} ").is_none());
    assert!(transport.decode("{\"packet\":\"authenticate\"}").is_none());
    assert!(transport.decode("{\"packet\":\"authenticate\",\"content\":\"unterminated}").is_none());
    // the largest exit code plus one does not fit
    assert!(transport.decode("{\"packet\":\"command_terminated\",\"content\":4294967296}").is_none());
    // leading zeros are not canonical
    assert!(transport.decode("{\"packet\":\"command_terminated\",\"content\":007}").is_none());
}

#[test]
fn decode_accepts_only_canonical_escapes() {
    let transport = Transport::new();
    // a plain letter written as a unicode escape is not the canonical
    // spelling, so the frame is not one the encoder produces
    assert!(transport
        .decode("{\"packet\":\"authenticate\",\"content\":\"\\u0041\"}")
        .is_none());
    // a newline's canonical spelling is the short escape
    assert!(transport
        .decode("{\"packet\":\"authenticate\",\"content\":\"\\u000a\"}")
        .is_none());
    assert!(matches!(
        transport.decode("{\"packet\":\"authenticate\",\"content\":\"\\u0001\"}"),
        Some(tracer::ws::packet::Packet::Authenticate(t)) if t == "\u{1}"
    ));
    // whitespace between tokens is not canonical either
    assert!(transport.decode("{\"packet\": \"ping\"}").is_none());
}

#[test]
fn describe_names_packets() {
    assert_eq!(Packet::Ping.describe(), "ping");
    assert_eq!(Packet::Pong.describe(), "pong");
    assert_eq!(Packet::Authenticate("secret".to_string()).describe(), "authenticate");
    assert_eq!(Packet::AuthenticationSuccessful.describe(), "authentication successful");
    assert_eq!(
        Packet::AuthenticationFailed("why".to_string()).describe(),
        "authenticate failed (message = why)"
    );
    assert_eq!(
        Packet::CommandOutput { stream: "stdout".to_string(), message: "hi".to_string() }
            .describe(),
        "command output ( stream = stdout, message = hi)"
    );
    assert_eq!(Packet::CommandTerminated(9).describe(), "command terminated (code = 9)");
    assert_eq!(Packet::CommandTerminate.describe(), "command terminate");
    assert_eq!(Packet::CommandLaunched.describe(), "command launched");
}
