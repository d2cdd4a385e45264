use cf_tunnel::error::TunnelError;
use cf_tunnel::metadata::{Metadata, MetadataMap};
use cf_tunnel::request::{build_http_request, destination, header_name, origin_path, request_method, stream_metadata};

fn entry(k: &str, v: &str) -> Metadata {
    Metadata { key: k.to_string(), val: v.to_string() }
}

fn pairs(p: &cf_tunnel::request::RequestPlan) -> Vec<(String, String)> {
    p.headers.iter().map(|h| (h.name.clone(), h.value.clone())).collect()
}

#[test]
fn header_names_from_keys() {
    assert_eq!(header_name("HttpHeader:Accept").as_deref(), Some("Accept"));
    assert_eq!(header_name("HttpHeader:a:b").as_deref(), Some("a"));
    assert_eq!(header_name("HttpHeader:").as_deref(), Some(""));
    assert_eq!(header_name("HttpHeaderX:Accept").as_deref(), Some("Accept"));
    assert_eq!(header_name("HttpHeader"), None);
    assert_eq!(header_name("HttpMethod"), None);
    assert_eq!(header_name("Http:Header"), None);
}

#[test]
fn builds_a_get() {
    let m = MetadataMap::from_entries(vec![
        entry("HttpMethod", "GET"),
        entry("HttpHeader:Accept", "*/*"),
        entry("HttpHost", "ignored"),
        entry("HttpHeader:X-Test", "1"),
    ]);
    let p = build_http_request(Some("/a?b=c".to_string()), "example.com".to_string(), &m).unwrap();
    assert_eq!(p.method, "GET");
    assert_eq!(p.path, "/a?b=c");
    assert_eq!(p.body_len, None);
    assert_eq!(
        pairs(&p),
        vec![
            ("host".to_string(), "example.com".to_string()),
            ("Accept".to_string(), "*/*".to_string()),
            ("X-Test".to_string(), "1".to_string()),
        ]
    );
}

#[test]
fn path_defaults_to_root() {
    let m = MetadataMap::from_entries(vec![entry("HttpMethod", "POST"), entry("HttpHeader:Content-Length", "5")]);
    let p = build_http_request(None, "h".to_string(), &m).unwrap();
    assert_eq!(p.path, "/");
    assert_eq!(p.body_len, Some(5));
    assert!(pairs(&p).contains(&("Content-Length".to_string(), "5".to_string())));
}

#[test]
fn needs_a_method() {
    let m = MetadataMap::from_entries(vec![entry("HttpHeader:Accept", "*/*")]);
    assert!(matches!(build_http_request(None, "h".to_string(), &m), Err(TunnelError::NoMethod)));
}

#[test]
fn refuses_a_bad_method() {
    for bad in ["GE T", "", "G\u{e9}T", "(GET)"] {
        let m = MetadataMap::from_entries(vec![entry("HttpMethod", bad)]);
        assert!(matches!(build_http_request(None, "h".to_string(), &m), Err(TunnelError::InvalidMethod(_))), "{bad:?}");
    }
    let m = MetadataMap::from_entries(vec![entry("HttpMethod", "PURGE")]);
    assert!(build_http_request(None, "h".to_string(), &m).is_ok());
}

#[test]
fn refuses_a_bad_length() {
    let m = MetadataMap::from_entries(vec![entry("HttpMethod", "PUT"), entry("HttpHeader:Content-Length", "five")]);
    assert!(matches!(build_http_request(None, "h".to_string(), &m), Err(TunnelError::ParseIntError)));
}

#[test]
fn websocket_adds_upgrade_headers() {
    let m = stream_metadata(vec![entry("HttpMethod", "GET"), entry("HttpHeader:Upgrade", "h2c")], true);
    assert_eq!(m.get("HttpHeader:Upgrade").map(|s| s.as_str()), Some("websocket"));
    assert_eq!(m.get("HttpHeader:Connection").map(|s| s.as_str()), Some("upgrade"));
    let plain = stream_metadata(vec![entry("HttpMethod", "GET")], false);
    assert_eq!(plain.get("HttpHeader:Upgrade"), None);
}

#[test]
fn destinations() {
    let s = |x: &str| Some(x.to_string());
    assert_eq!(destination("http://example.com/a?b"), Some((s("/a?b"), s("example.com"))));
    assert_eq!(destination("http://example.com"), Some((s("/"), s("example.com"))));
    assert_eq!(destination("example.com:8080"), Some((None, s("example.com"))));
    assert_eq!(destination("/only/a/path"), Some((s("/only/a/path"), None)));
    assert_eq!(destination("http://exa mple.com/"), None);
}

#[test]
fn origin_paths() {
    assert_eq!(origin_path(None), "/");
    assert_eq!(origin_path(Some("/x?y".to_string())), "/x?y");
}

#[test]
fn method_is_checked_before_anything_else() {
    let none = MetadataMap::from_entries(vec![entry("HttpHeader:Content-Length", "x")]);
    assert!(matches!(request_method(&none), Err(TunnelError::NoMethod)));
    let bad = MetadataMap::from_entries(vec![entry("HttpMethod", "G T")]);
    assert!(matches!(request_method(&bad), Err(TunnelError::InvalidMethod(_))));
    let good = MetadataMap::from_entries(vec![entry("HttpMethod", "DELETE")]);
    assert_eq!(request_method(&good).unwrap(), "DELETE");
}

#[test]
fn header_names_agree_with_split() {
    let keys = [
        "HttpHeader:Accept", "HttpHeader::x", "HttpHeader", "HttpHeader:", "HttpHeaderZ:a:b:c", "Http",
        "HttpMethod", "xHttpHeader:a", "HttpHeader:\u{e9}t\u{e9}", ":HttpHeader:a",
    ];
    for k in keys {
        let expected = if k.starts_with("HttpHeader") { k.split(':').nth(1).map(|s| s.to_string()) } else { None };
        assert_eq!(header_name(k), expected, "{k:?}");
    }
}

#[test]
fn websocket_headers_keep_first_places() {
    let m = stream_metadata(vec![entry("HttpMethod", "GET"), entry("HttpHeader:Upgrade", "h2c")], true);
    let keys: Vec<(&str, &str)> = m.entries().iter().map(|e| (e.key.as_str(), e.val.as_str())).collect();
    assert_eq!(
        keys,
        vec![("HttpMethod", "GET"), ("HttpHeader:Upgrade", "websocket"), ("HttpHeader:Connection", "upgrade")]
    );
}
