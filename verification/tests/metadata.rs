use cf_tunnel::metadata::{Metadata, MetadataMap};

fn entry(k: &str, v: &str) -> Metadata {
    Metadata { key: k.to_string(), val: v.to_string() }
}

#[test]
fn get_reads_what_insert_wrote() {
    let mut m = MetadataMap::new();
    m.insert("a".to_string(), "1".to_string());
    m.insert("b".to_string(), "2".to_string());
    assert_eq!(m.get("a").map(|s| s.as_str()), Some("1"));
    assert_eq!(m.get("b").map(|s| s.as_str()), Some("2"));
    assert_eq!(m.get("c"), None);
}

#[test]
fn insert_replaces_in_place() {
    let mut m = MetadataMap::new();
    m.insert("a".to_string(), "1".to_string());
    m.insert("b".to_string(), "2".to_string());
    m.insert("a".to_string(), "3".to_string());
    assert_eq!(m.get("a").map(|s| s.as_str()), Some("3"));
    let keys: Vec<&str> = m.entries().iter().map(|e| e.key.as_str()).collect();
    assert_eq!(keys, vec!["a", "b"]);
}

#[test]
fn later_entries_win() {
    let m = MetadataMap::from_entries(vec![entry("k", "first"), entry("x", "y"), entry("k", "second")]);
    assert_eq!(m.get("k").map(|s| s.as_str()), Some("second"));
    assert_eq!(m.entries().len(), 2);
}

#[test]
fn keys_keep_their_first_place() {
    let m = MetadataMap::from_entries(vec![entry("b", "1"), entry("a", "2"), entry("b", "3"), entry("c", "4")]);
    let got: Vec<(&str, &str)> = m.entries().iter().map(|e| (e.key.as_str(), e.val.as_str())).collect();
    assert_eq!(got, vec![("b", "3"), ("a", "2"), ("c", "4")]);
}
