use iroh_socks5_proxy::http::extract_http_info;

#[test]
fn test_extract_http_info_simple_get() {
    let request = b"GET / HTTP/1.1\r\nHost: example.com\r\n\r\n";
    let info = extract_http_info(request).unwrap();
    assert_eq!(info.method, "GET");
    assert_eq!(info.path, "/");
    assert_eq!(info.host, Some("example.com".to_string()));
}

#[test]
fn test_extract_http_info_with_path() {
    let request = b"POST /api/users HTTP/1.1\r\nHost: api.example.com\r\nContent-Type: application/json\r\n\r\n";
    let info = extract_http_info(request).unwrap();
    assert_eq!(info.method, "POST");
    assert_eq!(info.path, "/api/users");
    assert_eq!(info.host, Some("api.example.com".to_string()));
}

#[test]
fn test_extract_http_info_no_host() {
    let request = b"GET /test HTTP/1.1\r\nUser-Agent: test\r\n\r\n";
    let info = extract_http_info(request).unwrap();
    assert_eq!(info.method, "GET");
    assert_eq!(info.path, "/test");
    assert_eq!(info.host, None);
}

#[test]
fn test_extract_http_info_too_short() {
    let request = b"GET";
    assert_eq!(extract_http_info(request), None);
}

#[test]
fn test_extract_http_info_not_http() {
    let request = b"INVALID REQUEST\r\n\r\n";
    assert_eq!(extract_http_info(request), None);
}

#[test]
fn test_extract_http_info_binary_data() {
    let request = vec![0x16, 0x03, 0x01, 0x00, 0x05]; // TLS handshake
    assert_eq!(extract_http_info(&request), None);
}

#[test]
fn test_extract_http_info_different_methods() {
    let methods = ["GET", "POST", "PUT", "DELETE", "HEAD"];
    for method in &methods {
        let request = format!("{} /path HTTP/1.1\r\nHost: test.com\r\n\r\n", method);
        let info = extract_http_info(request.as_bytes()).unwrap();
        assert_eq!(info.method, *method);
    }
}

#[test]
fn test_extract_http_get_api_users() {
    let request = b"GET /api/users HTTP/1.1\r\nHost: api.example.com\r\n\r\n";
    let info = extract_http_info(request).unwrap();
    assert_eq!(info.method, "GET");
    assert_eq!(info.path, "/api/users");
    assert_eq!(info.host, Some("api.example.com".to_string()));
}

#[test]
fn test_extract_http_post_without_host() {
    let request = b"POST / HTTP/1.1\r\nUser-Agent: x\r\n\r\n";
    let info = extract_http_info(request).unwrap();
    assert_eq!(info.method, "POST");
    assert_eq!(info.path, "/");
    assert_eq!(info.host, None);
}

#[test]
fn test_extract_http_fifteen_bytes_is_none() {
    let request = b"GET / HTTP/1.1\r"; // 15 bytes
    assert_eq!(request.len(), 15);
    assert_eq!(extract_http_info(request), None);
}

#[test]
fn test_extract_http_host_case_insensitive() {
    let request = b"GET / HTTP/1.1\r\nhOsT:   spaced.example.org  \r\nOther: x\r\n\r\n";
    let info = extract_http_info(request).unwrap();
    assert_eq!(info.host, Some("spaced.example.org".to_string()));
}

#[test]
fn test_extract_http_host_after_empty_line_is_ignored() {
    let request = b"GET / HTTP/1.1\r\nAccept: */*\r\n\r\nHost: late.example.com\r\n";
    let info = extract_http_info(request).unwrap();
    assert_eq!(info.host, None);
}

#[test]
fn test_extract_http_invalid_utf8_is_none() {
    let mut request = b"GET / HTTP/1.1\r\nHost: example.com\r\n\r\n".to_vec();
    request.push(0xFF);
    assert_eq!(extract_http_info(&request), None);
}
