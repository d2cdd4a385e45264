use cf_tunnel::error::TunnelError;
use cf_tunnel::protocol::Protocol;

#[test]
fn parses_quic() {
    assert_eq!(Protocol::parse("quic").unwrap(), Protocol::Quic);
}

#[test]
fn parses_http2() {
    assert_eq!(Protocol::parse("http2").unwrap(), Protocol::Http2);
}

#[test]
fn refuses_other_names() {
    for name in ["QUIC", "http", "http2 ", "", "h2"] {
        assert!(matches!(Protocol::parse(name), Err(TunnelError::InvalidProtocol)));
    }
}

#[test]
fn from_str_agrees_with_parse() {
    let p: Protocol = "http2".parse().unwrap();
    assert_eq!(p, Protocol::Http2);
    let e = "tcp".parse::<Protocol>().unwrap_err();
    assert_eq!(e.kind(), std::io::ErrorKind::Other);
    assert_eq!(e.to_string(), "Invalid protocol, must be one of quic, http2");
}

#[test]
fn default_protocol_is_quic() {
    assert_eq!(Protocol::or_default(None), Protocol::Quic);
    assert_eq!(Protocol::or_default(Some(Protocol::Http2)), Protocol::Http2);
}
