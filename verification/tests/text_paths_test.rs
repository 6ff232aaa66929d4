use switchboard::paths::{file_name, join};
use switchboard::text::{
    chars_of, concat3, contains_str, ends_with, lower_eq, parse_decimal, starts_with, str_eq,
    string_from_chars, usize_to_decimal,
};

#[test]
fn test_file_name_like_std_path() {
    assert_eq!(file_name("/tmp/logs/app.log").as_deref(), Some("app.log"));
    assert_eq!(file_name("app.log").as_deref(), Some("app.log"));
    assert_eq!(file_name("/var/log/").as_deref(), Some("log"));
    assert_eq!(file_name("logs//app.log//").as_deref(), Some("app.log"));
    assert_eq!(file_name("logs/app.log/.").as_deref(), Some("app.log"));
    assert_eq!(file_name("logs/.."), None);
    assert_eq!(file_name("/"), None);
    assert_eq!(file_name(""), None);
    assert_eq!(file_name("."), None);
}

#[test]
fn test_join_like_pathbuf_push() {
    assert_eq!(join("./logs", "app"), "./logs/app");
    assert_eq!(join("./logs/", "app"), "./logs/app");
    assert_eq!(join("", "app.log"), "app.log");
    assert_eq!(join("/base", "/abs/x.log"), "/abs/x.log");
}

#[test]
fn test_decimal_parsing() {
    assert_eq!(parse_decimal("8080", 65535), Some(8080));
    assert_eq!(parse_decimal("+42", 65535), Some(42));
    assert_eq!(parse_decimal("0065535", 65535), Some(65535));
    assert_eq!(parse_decimal("65536", 65535), None);
    assert_eq!(parse_decimal("", 10), None);
    assert_eq!(parse_decimal("+", 10), None);
    assert_eq!(parse_decimal("-1", 10), None);
    assert_eq!(parse_decimal("1 ", 10), None);
    assert_eq!(parse_decimal("18446744073709551615", u64::MAX), Some(u64::MAX));
    assert_eq!(parse_decimal("18446744073709551616", u64::MAX), None);
}

#[test]
fn test_decimal_rendering() {
    assert_eq!(usize_to_decimal(0), "0");
    assert_eq!(usize_to_decimal(10), "10");
    assert_eq!(usize_to_decimal(20480), "20480");
    assert_eq!(usize_to_decimal(usize::MAX), usize::MAX.to_string());
}

#[test]
fn test_string_primitives() {
    assert!(str_eq("abc", "abc"));
    assert!(!str_eq("abc", "abd"));
    assert!(lower_eq("TrUe", "true"));
    assert!(!lower_eq("truth", "true"));
    assert!(contains_str("a/../b", "../"));
    assert!(!contains_str("a/./b", "../"));
    assert!(starts_with("/usr/bin/x", "/usr/bin"));
    assert!(!starts_with("/us", "/usr"));
    assert!(ends_with("app.log", ".log"));
    assert!(!ends_with("app.log.txt", ".log"));
    assert_eq!(concat3("a", "bc", "d"), "abcd");
    let cs = chars_of("héllo");
    assert_eq!(cs.len(), 5);
    assert_eq!(string_from_chars(&cs), "héllo");
}

#[test]
fn test_decimal_round_trip() {
    for n in [0usize, 9, 10, 99, 100, 20480, 65535, 4_294_967_295] {
        let text = usize_to_decimal(n);
        assert_eq!(parse_decimal(&text, u64::MAX), Some(n as u64));
    }
}
