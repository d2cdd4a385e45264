use cf_tunnel::decimal::{decimal_string, parse_usize};

#[test]
fn reads_plain_numbers() {
    assert_eq!(parse_usize("0"), Some(0));
    assert_eq!(parse_usize("1234"), Some(1234));
    assert_eq!(parse_usize("007"), Some(7));
}

#[test]
fn reads_a_leading_plus() {
    assert_eq!(parse_usize("+42"), Some(42));
}

#[test]
fn refuses_what_std_refuses() {
    for s in ["", "+", "-1", "12a", " 1", "1 ", "++1", "1_000"] {
        assert_eq!(parse_usize(s), None, "{s:?}");
        assert!(s.parse::<usize>().is_err(), "{s:?}");
    }
}

#[test]
fn refuses_overflow() {
    let max = usize::MAX.to_string();
    assert_eq!(parse_usize(&max), Some(usize::MAX));
    let over = format!("{}0", max);
    assert_eq!(parse_usize(&over), None);
}

#[test]
fn writes_decimal() {
    assert_eq!(decimal_string(0), "0");
    assert_eq!(decimal_string(404), "404");
    assert_eq!(decimal_string(u64::MAX), u64::MAX.to_string());
}

#[test]
fn decimal_roundtrip() {
    for n in [0usize, 9, 10, 101, 65535, 1 << 40] {
        assert_eq!(parse_usize(&decimal_string(n as u64)), Some(n));
    }
}
