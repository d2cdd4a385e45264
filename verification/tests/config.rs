use cf_tunnel::config::{
    config_dir, config_file_name, new_tunnel_secret, secret_bytes, CloudflaredTunnelConfig, QuickTunnel, QuickTunnelTunnel,
    TryTunnel, TunnelConfig,
};
use cf_tunnel::error::TunnelError;
use cf_tunnel::rpc::{new_registration, registration_request, registration_result, ConnectionReply};

const ID: &str = "6ba7b810-9dad-11d1-80b4-00c04fd430c8";
const ID_BYTES: [u8; 16] = [
    0x6b, 0xa7, 0xb8, 0x10, 0x9d, 0xad, 0x11, 0xd1, 0x80, 0xb4, 0x00, 0xc0, 0x4f, 0xd4, 0x30, 0xc8,
];

fn answer(id: &str, secret: &str) -> QuickTunnelTunnel {
    QuickTunnelTunnel {
        kind: "cfd_tunnel".into(),
        id: id.into(),
        name: "qt".into(),
        hostname: "a-b.trycloudflare.com".into(),
        account_tag: "acct".into(),
        secret: secret.into(),
    }
}

#[test]
fn quick_tunnel_keeps_credentials() {
    let q = QuickTunnel::from_tunnel(answer(ID, "c2VjcmV0"));
    assert_eq!(q.hostname, "a-b.trycloudflare.com");
    assert_eq!(q.account_tag(), "acct");
    assert_eq!(q.id(), ID);
    assert_eq!(q.secret(), "c2VjcmV0");
}

#[test]
fn try_tunnel_reads_id_and_secret() {
    let t = TryTunnel::from_tunnel(answer(ID, "c2VjcmV0")).unwrap();
    assert_eq!(t.id, ID_BYTES);
    assert_eq!(t.secret, b"secret");
    assert!(matches!(TryTunnel::from_tunnel(answer("not-a-uuid", "c2VjcmV0")), Err(TunnelError::Uuid(_))));
    assert!(matches!(TryTunnel::from_tunnel(answer(ID, "c2VjcmV0=")), Err(TunnelError::DecodeError(_))));
    assert!(matches!(TryTunnel::from_tunnel(answer(ID, "c2VjcmV")), Err(TunnelError::DecodeError(_))));
}

#[test]
fn uuid_error_comes_first() {
    assert!(matches!(TryTunnel::from_tunnel(answer("x", "!!")), Err(TunnelError::Uuid(_))));
}

#[test]
fn named_tunnel_secret_is_padded_base64() {
    let c = CloudflaredTunnelConfig::new("acct".into(), b"ab", ID.into());
    assert_eq!(c.tunnel_secret, "YWI=");
    assert_eq!(c.secret(), "YWI=");
    assert_eq!(c.account_tag(), "acct");
}

#[test]
fn written_secret_registers_unchanged() {
    let secret = new_tunnel_secret();
    assert_eq!(secret.len(), 32);
    let c = CloudflaredTunnelConfig::new("acct".into(), &secret, ID.into());
    let req = registration_request(&c, &[7u8; 16]).unwrap();
    assert_eq!(req.tunnel_secret, secret);
    assert_eq!(req.tunnel_id, ID_BYTES.to_vec());
    assert_eq!(req.account_tag, "acct");
    assert_eq!(req.conn_index, 0);
    assert_eq!(req.client_id, vec![7u8; 16]);
}

#[test]
fn registration_refusals() {
    let bad_id = QuickTunnel::from_tunnel(answer("nope", "c2VjcmV0"));
    assert!(matches!(registration_request(&bad_id, &[]), Err(TunnelError::Uuid(_))));
    let bad_secret = QuickTunnel::from_tunnel(answer(ID, "*"));
    assert!(matches!(new_registration(&bad_secret), Err(TunnelError::DecodeError(_))));
}

#[test]
fn fresh_registration_has_a_client_id() {
    let q = QuickTunnel::from_tunnel(answer(ID, "c2VjcmV0"));
    let a = new_registration(&q).unwrap();
    assert_eq!(a.client_id.len(), 16);
    assert_eq!(a.client_id[6] >> 4, 4);
    assert_eq!(a.client_id[8] >> 6, 2);
    assert_eq!(a.tunnel_secret, b"secret");
}

#[test]
fn registration_replies() {
    let ok = registration_result(ConnectionReply::Details { uuid: vec![1, 2], location: "AMS".into() }).unwrap();
    assert_eq!(ok.uuid, vec![1, 2]);
    assert_eq!(ok.location, "AMS");
    match registration_result(ConnectionReply::Failure { cause: "nope".into() }) {
        Err(TunnelError::RpcError(c)) => assert_eq!(c, "nope"),
        other => panic!("{other:?}"),
    }
}

#[test]
fn config_file_names() {
    assert_eq!(config_dir(), ".cloudflared");
    assert_eq!(config_file_name(ID), format!("{ID}.json"));
}

#[test]
fn quick_tunnel_url() {
    let q = QuickTunnel::from_tunnel(answer(ID, "c2VjcmV0"));
    assert_eq!(q.url(), "https://a-b.trycloudflare.com");
}

#[test]
fn drawn_secret_is_kept() {
    let mut s = [0u8; 32];
    for (i, b) in s.iter_mut().enumerate() {
        *b = i as u8 * 7;
    }
    assert_eq!(secret_bytes(&s), s.to_vec());
}
