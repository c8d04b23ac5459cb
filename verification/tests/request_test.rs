use http_server::http_method::HttpMethod;
use http_server::http_version::HttpVersion;
use http_server::request::{
    is_valid_header_name, is_valid_header_value, parse_header_line, parse_headers,
    parse_http_request_line, parse_query_params,
};

#[test]
fn test_is_valid_header_name() {
    assert!(is_valid_header_name("content-type"));
    assert!(is_valid_header_name("x-custom-header"));
    assert!(!is_valid_header_name("invalid header"));
    assert!(!is_valid_header_name("invalid@header"));
}

#[test]
fn test_is_valid_header_value() {
    assert!(is_valid_header_value("application/json"));
    assert!(is_valid_header_value("Some value with spaces"));
    assert!(!is_valid_header_value("Invalid\x7FValue"));
    assert!(!is_valid_header_value("Invalid\x01Value"));
}

#[test]
fn test_parse_query_params() {
    let params = parse_query_params("/path?key1=value1&key2=value2&key1=value3");
    assert_eq!(
        params.get("key1").unwrap().as_slice(),
        &[&"value1".to_string(), &"value3".to_string()]
    );
    assert_eq!(
        params.get("key2").unwrap().as_slice(),
        &[&"value2".to_string()]
    );
}

#[test]
fn test_parse_http_request_line() {
    let (method, version, path) = parse_http_request_line("GET /index.html HTTP/1.1").unwrap();
    assert_eq!(method, HttpMethod::GET);
    assert_eq!(version, HttpVersion::Http1_1);
    assert_eq!(path, "/index.html");
}

#[test]
fn test_parse_header_line() {
    let (name, value) = parse_header_line("Content-Type: application/json")
        .unwrap()
        .unwrap();
    assert_eq!(name, "content-type");
    assert_eq!(value, "application/json");
}

#[test]
fn test_parse_headers() {
    let headers = vec![
        "Content-Type: application/json",
        "Set-Cookie: sessionId=abc123",
        "Set-Cookie: theme=dark",
    ];

    let header_map = parse_headers(&headers).unwrap();
    assert_eq!(
        header_map.get("content-type").unwrap().as_slice(),
        &[&"application/json".to_string()]
    );
    assert_eq!(
        header_map.get("set-cookie").unwrap().as_slice(),
        &[&"sessionId=abc123".to_string(), &"theme=dark".to_string()]
    );
}
