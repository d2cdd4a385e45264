use cf_tunnel::error::TunnelError;
use cf_tunnel::response::{encode_response_headers, header_value_text, response_metadata, ResponseHeader};

fn header(n: &str, v: &[u8]) -> ResponseHeader {
    ResponseHeader { name: n.to_string(), value: v.to_vec() }
}

#[test]
fn values_as_text() {
    assert_eq!(header_value_text(b"text/html; charset=utf-8").as_deref(), Some("text/html; charset=utf-8"));
    assert_eq!(header_value_text(b"a\tb").as_deref(), Some("a\tb"));
    assert_eq!(header_value_text(b"").as_deref(), Some(""));
    assert_eq!(header_value_text(b"caf\xc3\xa9"), None);
    assert_eq!(header_value_text(b"a\x7fb"), None);
    assert_eq!(header_value_text(b"a\nb"), None);
}

#[test]
fn response_metadata_lists_status_then_headers() {
    let m = response_metadata(404, &vec![header("content-type", b"text/plain"), header("x-a", b"1")]).unwrap();
    let got: Vec<(String, String)> = m.into_iter().map(|e| (e.key, e.val)).collect();
    assert_eq!(
        got,
        vec![
            ("HttpStatus".to_string(), "404".to_string()),
            ("HttpHeader:content-type".to_string(), "text/plain".to_string()),
            ("HttpHeader:x-a".to_string(), "1".to_string()),
        ]
    );
}

#[test]
fn response_metadata_refuses_binary_values() {
    let r = response_metadata(200, &vec![header("x-a", b"1"), header("x-b", b"\xff")]);
    assert!(matches!(r, Err(TunnelError::ToStrError)));
}

#[test]
fn encodes_headers_for_the_edge() {
    let s = encode_response_headers(&vec![header("content-type", b"text/html"), header("x-a", b"b")]);
    assert_eq!(s, "Y29udGVudC10eXBl:dGV4dC9odG1s;eC1h:Yg");
    assert_eq!(encode_response_headers(&vec![]), "");
    assert!(http::HeaderValue::try_from(s).is_ok());
}

#[test]
fn encoded_binary_values_stay_valid() {
    let s = encode_response_headers(&vec![header("x-bin", &[0, 255, 10, 13])]);
    assert!(s.chars().all(|c| c.is_ascii_graphic()));
    assert!(http::HeaderValue::try_from(s).is_ok());
}

#[test]
fn names_are_encoded_from_their_utf8_bytes() {
    let s = encode_response_headers(&vec![header("\u{e9}", b"")]);
    assert_eq!(s, "w6k:");
}
