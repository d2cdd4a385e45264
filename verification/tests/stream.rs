use cf_tunnel::error::TunnelError;
use cf_tunnel::stream::{
    check_version, connection_type_from_code, classify_stream, is_switching_protocols, response_preamble, ConnectionType, StreamKind,
    DATA_SIG, RPC_SIG, VERSION,
};

#[test]
fn classifies_signatures() {
    assert_eq!(classify_stream(&DATA_SIG), StreamKind::Data);
    assert_eq!(classify_stream(&RPC_SIG), StreamKind::Rpc);
    assert_eq!(classify_stream(&[0x0A, 0x36, 0xCD, 0x12, 0xA1, 0x3F]), StreamKind::Unknown);
    assert_eq!(classify_stream(&[0; 6]), StreamKind::Unknown);
}

#[test]
fn accepts_only_our_version() {
    assert!(check_version(b"01").is_ok());
    assert!(matches!(check_version(b"02"), Err(TunnelError::VersionMismatch)));
    assert!(matches!(check_version(b"10"), Err(TunnelError::VersionMismatch)));
}

#[test]
fn preamble_reads_back() {
    for t in [ConnectionType::Http, ConnectionType::Websocket] {
        let p = response_preamble(t);
        assert_eq!(p.len(), 8);
        let sig: [u8; 6] = p[..6].try_into().unwrap();
        let ver: [u8; 2] = p[6..].try_into().unwrap();
        assert_eq!(classify_stream(&sig), StreamKind::Data);
        assert!(check_version(&ver).is_ok());
        assert_eq!(ver, VERSION);
    }
    assert!(response_preamble(ConnectionType::Tcp).is_empty());
}

#[test]
fn switching_protocols() {
    assert!(is_switching_protocols(101));
    assert!(!is_switching_protocols(200));
}

#[test]
fn connection_type_codes() {
    assert_eq!(connection_type_from_code(0), Some(ConnectionType::Http));
    assert_eq!(connection_type_from_code(1), Some(ConnectionType::Websocket));
    assert_eq!(connection_type_from_code(2), Some(ConnectionType::Tcp));
    assert_eq!(connection_type_from_code(3), None);
}
