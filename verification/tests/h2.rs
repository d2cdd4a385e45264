use cf_tunnel::h2::{chunk_len, classify_h2_request, forwarded_response_headers, names_match, H2Request};
use cf_tunnel::response::ResponseHeader;

#[test]
fn classifies_streams() {
    assert_eq!(classify_h2_request(Some(b"control-stream"), false), H2Request::ControlStream);
    assert_eq!(classify_h2_request(Some(b"update-configuration"), true), H2Request::UpdateConfiguration);
    assert_eq!(classify_h2_request(Some(b"websocket"), false), H2Request::Websocket);
    assert_eq!(classify_h2_request(Some(b"other"), true), H2Request::TcpProxy);
    assert_eq!(classify_h2_request(None, true), H2Request::TcpProxy);
    assert_eq!(classify_h2_request(None, false), H2Request::Http);
    assert_eq!(classify_h2_request(Some(b"WebSocket"), false), H2Request::Http);
}

#[test]
fn unreadable_upgrade_header_counts_as_absent() {
    assert_eq!(classify_h2_request(Some(b"websocket\xff"), false), H2Request::Http);
    assert_eq!(classify_h2_request(Some(b"\x01control-stream"), true), H2Request::TcpProxy);
}

#[test]
fn header_names_ignore_case() {
    assert!(names_match("Content-Type", "content-type"));
    assert!(!names_match("content-types", "content-type"));
    assert!(!names_match("content_type", "content-type"));
}

#[test]
fn forwards_type_and_length_only() {
    let hs = vec![
        ResponseHeader { name: "content-type".into(), value: b"text/plain".to_vec() },
        ResponseHeader { name: "x-a".into(), value: b"1".to_vec() },
        ResponseHeader { name: "Content-Length".into(), value: b"3".to_vec() },
        ResponseHeader { name: "content-type".into(), value: b"text/html".to_vec() },
    ];
    let f = forwarded_response_headers(&hs);
    let names: Vec<(&str, &[u8])> = f.iter().map(|h| (h.name.as_str(), h.value.as_slice())).collect();
    assert_eq!(
        names,
        vec![
            ("content-type", &b"text/plain"[..]),
            ("Content-Length", &b"3"[..]),
            ("content-type", &b"text/html"[..]),
        ]
    );
}

#[test]
fn chunk_sizes() {
    assert_eq!(chunk_len(0, 100), 0);
    assert_eq!(chunk_len(10, 100), 10);
    assert_eq!(chunk_len(1000, 100), 100);
    assert_eq!(chunk_len(5, 0), 0);
}
