use iroh_socks5_proxy::logging::format_log;
use iroh_socks5_proxy::text::{dec_string_u16, utf8_to_string};

#[test]
fn test_format_log() {
    let log = format_log("TEST", "example.com", 443);
    assert!(log.contains("TEST"));
    assert!(log.contains("example.com:443"));
    assert!(log.contains("[")); // Has timestamp
}

#[test]
fn test_format_log_shape() {
    // "[HH:MM:SS] TEST example.com:443" — everything around the eight
    // timestamp characters is pinned.
    let log = format_log("TEST", "example.com", 443);
    assert_eq!(log.len(), 31);
    assert!(log.starts_with("["));
    assert_eq!(&log[9..], "] TEST example.com:443");
    assert_eq!(log.as_bytes()[3], b':');
    assert_eq!(log.as_bytes()[6], b':');
}

#[test]
fn test_dec_string() {
    assert_eq!(dec_string_u16(0), "0");
    assert_eq!(dec_string_u16(7), "7");
    assert_eq!(dec_string_u16(443), "443");
    assert_eq!(dec_string_u16(65535), "65535");
    assert_eq!(dec_string_u16(1080), "1080");
}

#[test]
fn test_utf8_to_string() {
    assert_eq!(utf8_to_string(b"hello"), Some("hello".to_string()));
    assert_eq!(utf8_to_string("bücher".as_bytes()), Some("bücher".to_string()));
    assert_eq!(utf8_to_string(&[0xFF, 0xFE]), None);
    assert_eq!(utf8_to_string(b""), Some(String::new()));
}
