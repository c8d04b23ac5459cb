//! Unit checks of the library's parts on concrete values.

use http_server::http_method::{parse_method, HttpMethod};
use http_server::http_version::{parse_http_version, HttpVersion};
use http_server::map::{DuplicateMap, ParamMap};
use http_server::mime_type::{MimeType, APPLICATION_OCTET_STREAM, TEXT_PLAIN};
use http_server::number::{numeral_chars, parse_unsigned_chars};
use http_server::reading::{
    chunk_size_of, content_length_start, read_error_to_parsing_error, read_n_request_size,
    read_n_step, read_until_request_size, read_until_step, ChunkAction, ChunkStart, ChunkedBody,
    ReadError, UntilStep, BUFFER_SIZE,
};
use http_server::request::{
    build_request, header_can_be_duplicate, is_tchar, parse_body_framing, parse_header_line,
    parse_headers, parse_http_request_line, parse_query_params, parse_request_head, BodyFraming,
    Request, RequestParsingError,
};
use http_server::response::{
    binary_response, bytes, empty, redirect, response, status, text, text_response,
};
use http_server::routing::{
    allowed_methods_header, get_path_params, method_matches, path_matches, select_route, Route,
    RouteDecision,
};
use http_server::server::{
    connection_action, encode_response, encode_response_with_body, encode_simple_response,
    normalize_target, parse_failure_reply, request_action, wants_close, ConnectionAction,
    FailureReply, HttpServerConfig, HttpServerSizeConfig, HttpServerTimeoutConfig, RequestAction,
    ShutdownMode,
};
use http_server::status_code::StatusCode;
use http_server::utils::{bytes_contain, bytes_split, gzip_compress};

fn chars(s: &str) -> Vec<char> {
    s.chars().collect()
}

fn code(n: u16) -> StatusCode {
    StatusCode::from(n)
}

// ===== Methods and versions =====

#[test]
fn method_tokens_are_case_sensitive() {
    assert_eq!(parse_method("GET"), Some(HttpMethod::GET));
    assert_eq!(parse_method("PATCH"), Some(HttpMethod::PATCH));
    assert_eq!(parse_method("UPDATE"), Some(HttpMethod::UPDATE));
    assert_eq!(parse_method("get"), None);
    assert_eq!(parse_method("ALL"), None);
}

#[test]
fn allow_tokens_parse_back() {
    for token in ["DELETE", "GET", "HEAD", "OPTIONS", "PATCH", "POST", "PUT"] {
        let m = parse_method(token).unwrap();
        assert_eq!(format!("{:?}", m), token);
    }
}

#[test]
fn versions() {
    assert_eq!(parse_http_version("HTTP/1.1"), Some(HttpVersion::Http1_1));
    assert_eq!(parse_http_version("HTTP/1.0"), Some(HttpVersion::Http1_0));
    assert_eq!(parse_http_version("HTTP/2"), None);
    assert_eq!(parse_http_version("http/1.1"), None);
}

// ===== Maps =====

#[test]
fn string_map_first_value_wins() {
    let mut m: ParamMap<String> = ParamMap::empty();
    assert!(!m.has("a"));
    m.add("a", "1".to_string());
    m.add("b", "2".to_string());
    m.add("a", "3".to_string());
    assert!(m.has("a"));
    assert_eq!(m.get("a").unwrap(), "1");
    assert_eq!(m.get("b").unwrap(), "2");
    assert_eq!(m.get("c"), None);
}

#[test]
fn duplicate_map_accumulates_in_order() {
    let mut m: ParamMap<DuplicateMap> = ParamMap::empty();
    m.add("k", "x".to_string());
    assert_eq!(m.get("k").unwrap().as_single().unwrap(), "x");
    assert!(m.get("k").unwrap().as_list().is_none());
    m.add("other", "o".to_string());
    m.add("k", "y".to_string());
    m.add("k", "z".to_string());
    let v = m.get("k").unwrap();
    assert!(v.as_single().is_none());
    assert_eq!(v.as_list().unwrap(), &vec!["x".to_string(), "y".to_string(), "z".to_string()]);
    assert_eq!(v.as_slice(), vec![&"x".to_string(), &"y".to_string(), &"z".to_string()]);
    assert_eq!(m.get_single("other").unwrap(), "o");
}

#[test]
fn require_single_lookups() {
    let mut m: ParamMap<DuplicateMap> = ParamMap::empty();
    assert_eq!(m.get_require_single("k"), Ok(None));
    m.add("k", "x".to_string());
    assert_eq!(m.get_require_single("k"), Ok(Some(&"x".to_string())));
    m.add("k", "y".to_string());
    assert_eq!(
        m.get_require_single("k"),
        Err("Expected single value for key 'k', but found multiple values.".to_string())
    );
    assert_eq!(m.get_single("k"), None);
}

#[test]
fn add_require_single_refuses_taken_keys() {
    let mut m: ParamMap<DuplicateMap> = ParamMap::empty();
    assert_eq!(m.add_require_single("k", "1".to_string()), Ok(()));
    assert_eq!(m.get_single("k").unwrap(), "1");
    assert_eq!(
        m.add_require_single("k", "2".to_string()),
        Err("Key 'k' already has a single value, cannot add another.".to_string())
    );
    assert_eq!(m.get_single("k").unwrap(), "1");
    m.add("k", "3".to_string());
    assert_eq!(
        m.add_require_single("k", "4".to_string()),
        Err("Key 'k' already has multiple values, cannot add a single value.".to_string())
    );
}

// ===== Numbers =====

#[test]
fn numerals() {
    assert_eq!(numeral_chars(0, 10), chars("0"));
    assert_eq!(numeral_chars(8192, 16), chars("2000"));
    assert_eq!(numeral_chars(1808, 16), chars("710"));
    assert_eq!(numeral_chars(255, 16), chars("FF"));
    assert_eq!(numeral_chars(10000, 10), chars("10000"));
}

#[test]
fn numerals_read_back() {
    for n in [0usize, 1, 9, 10, 15, 16, 255, 8192, 123456789, usize::MAX] {
        assert_eq!(parse_unsigned_chars(&numeral_chars(n, 10), 10), Some(n));
        assert_eq!(parse_unsigned_chars(&numeral_chars(n, 16), 16), Some(n));
    }
}

#[test]
fn unsigned_parsing_follows_from_str_radix() {
    assert_eq!(parse_unsigned_chars(&chars("+42"), 10), Some(42));
    assert_eq!(parse_unsigned_chars(&chars("ff"), 16), Some(255));
    assert_eq!(parse_unsigned_chars(&chars("FF"), 16), Some(255));
    assert_eq!(parse_unsigned_chars(&chars(""), 10), None);
    assert_eq!(parse_unsigned_chars(&chars("+"), 10), None);
    assert_eq!(parse_unsigned_chars(&chars("-1"), 10), None);
    assert_eq!(parse_unsigned_chars(&chars("12a"), 10), None);
    assert_eq!(parse_unsigned_chars(&chars(" 1"), 10), None);
    assert_eq!(parse_unsigned_chars(&chars("123456789123456789123456789"), 10), None);
    for s in ["0", "7", "+99", "ffff", "10", "abc", "18446744073709551616"] {
        for radix in [10u32, 16] {
            assert_eq!(
                parse_unsigned_chars(&chars(s), radix),
                usize::from_str_radix(s, radix).ok()
            );
        }
    }
}

// ===== Status codes and media types =====

#[test]
fn status_codes() {
    assert_eq!(StatusCode::from_u16(404), Some(StatusCode::new(404, "Not Found")));
    assert_eq!(StatusCode::from_u16(299), None);
    assert_eq!(StatusCode::from(200u16).reason, "OK");
    assert_eq!(StatusCode::from(299u16), StatusCode::new(299, "Unknown"));
    assert_eq!(StatusCode::from(418u16).to_string(), "418 I'm a teapot");
    assert_eq!(StatusCode::new(599, "Custom").to_string(), "599 Custom");
}

#[test]
fn media_types() {
    let json = MimeType::from_str("application/json").unwrap();
    assert_eq!(json.to_string(), "application/json");
    assert!(!json.is_binary);
    assert!(MimeType::from_str("image/png").unwrap().is_binary);
    assert_eq!(MimeType::from_str("application/unknown"), None);
    assert_eq!(MimeType::new("x/y", true).to_string(), "x/y");
    assert_eq!(TEXT_PLAIN(), MimeType::new("text/plain", false));
    assert_eq!(APPLICATION_OCTET_STREAM(), MimeType::new("application/octet-stream", true));
}

// ===== Responses =====

#[test]
fn response_builders() {
    let r = text("hi");
    assert_eq!(r.bytes, b"hi".to_vec());
    assert_eq!(r.status_code, code(200));
    assert_eq!(r.content_type, TEXT_PLAIN());
    let r = bytes(vec![1, 2]);
    assert_eq!(r.bytes, vec![1, 2]);
    assert_eq!(r.content_type, APPLICATION_OCTET_STREAM());
    let r = status(code(404));
    assert_eq!(r.status_code.code, 404);
    assert!(r.bytes.is_empty());
    let r = empty();
    assert_eq!(r.status_code, code(200));
    assert!(r.bytes.is_empty());
    let r = redirect("/next");
    assert_eq!(r.status_code, code(302));
    assert_eq!(r.headers, vec![("Location".to_string(), "/next".to_string())]);
}

#[test]
fn response_media_types() {
    let r = text_response(code(201), "application/json", b"{}".to_vec());
    assert_eq!(r.content_type, MimeType::new("application/json", false));
    assert_eq!(r.status_code, code(201));
    let r = text_response(code(200), "text/x-custom", vec![]);
    assert_eq!(r.content_type, MimeType::new("text/x-custom", false));
    let r = binary_response(code(200), "application/x-custom", vec![]);
    assert_eq!(r.content_type, MimeType::new("application/x-custom", true));
    let r = binary_response(code(200), "text/html", vec![]);
    assert_eq!(r.content_type, MimeType::new("text/html", false));
    let r = response(code(202), MimeType::new("a/b", true), vec![7]);
    assert_eq!(r.content_type, MimeType::new("a/b", true));
    assert_eq!(r.bytes, vec![7]);
}

#[test]
fn response_modifiers() {
    let r = text("a")
        .header("X-One", "1")
        .status(code(201))
        .content_type("application/json")
        .body(b"{}");
    assert_eq!(r.headers, vec![("X-One".to_string(), "1".to_string())]);
    assert_eq!(r.status_code, code(201));
    assert_eq!(r.content_type, MimeType::new("application/json", false));
    assert_eq!(r.bytes, b"{}".to_vec());
    let r = text("a").content_type("whatever/else");
    assert_eq!(r.content_type, MimeType::new("whatever/else", false));
}

// ===== Byte helpers =====

#[test]
fn byte_search_and_split() {
    let v = b"head\r\n\r\nbody\r\n\r\nmore".to_vec();
    assert!(bytes_contain(&v, b"\r\n\r\n"));
    assert!(!bytes_contain(&v, b"xyz"));
    assert_eq!(
        bytes_split(&v, b"\r\n\r\n"),
        Some((b"head".to_vec(), b"body\r\n\r\nmore".to_vec()))
    );
    assert_eq!(bytes_split(&v, b"zz"), None);
}

#[test]
fn gzip_output_is_a_gzip_stream() {
    let data = b"hello hello hello hello".to_vec();
    let out = gzip_compress(&data).unwrap();
    assert_ne!(out, data);
    assert_eq!(&out[..10], &[0x1f, 0x8b, 8, 0, 0, 0, 0, 0, 0, 255]);
    assert_eq!(gzip_compress(&data).unwrap(), out);
}

// ===== Request parsing =====

#[test]
fn token_characters() {
    assert!(is_tchar('a'));
    assert!(is_tchar('~'));
    assert!(!is_tchar(' '));
    assert!(!is_tchar(':'));
}

#[test]
fn duplicatable_headers() {
    assert!(header_can_be_duplicate("set-cookie"));
    assert!(header_can_be_duplicate("accept"));
    assert!(!header_can_be_duplicate("Set-Cookie"));
    assert!(!header_can_be_duplicate("host"));
    assert!(!header_can_be_duplicate("content-length"));
}

#[test]
fn request_line_errors() {
    assert!(matches!(parse_http_request_line("GET /"), Err(RequestParsingError::UnhandledRequest)));
    assert!(matches!(
        parse_http_request_line("FETCH / HTTP/1.1"),
        Err(RequestParsingError::UnhandledRequest)
    ));
    assert!(matches!(
        parse_http_request_line("GET / HTTP/3"),
        Err(RequestParsingError::UnhandledRequest)
    ));
    assert!(matches!(
        parse_http_request_line("GET  / HTTP/1.1"),
        Err(RequestParsingError::UnhandledRequest)
    ));
}

#[test]
fn header_line_cases() {
    assert!(matches!(parse_header_line(""), Ok(None)));
    assert!(matches!(parse_header_line("NoColon"), Ok(None)));
    assert!(matches!(parse_header_line("Bad Name: x"), Err(RequestParsingError::InvalidHeader)));
    assert!(matches!(parse_header_line("X: a\x07b"), Err(RequestParsingError::InvalidHeader)));
    let (k, v) = parse_header_line("X-Trim:   spaced value  ").unwrap().unwrap();
    assert_eq!(k, "x-trim");
    assert_eq!(v, "spaced value  ");
}

#[test]
fn repeated_single_header_is_refused() {
    let r = parse_headers(&["Host: a", "Host: b"]);
    assert!(matches!(r, Err(RequestParsingError::InvalidHeader)));
    let r = parse_headers(&["Host: a", "NoColon"]);
    assert!(matches!(r, Err(RequestParsingError::InvalidHeader)));
    let r = parse_headers(&["Host: a", ""]).unwrap();
    assert_eq!(r.get_single("host").unwrap(), "a");
}

#[test]
fn query_without_question_mark_is_empty() {
    let q = parse_query_params("/plain/path");
    assert!(!q.has(""));
    assert!(q.get("plain").is_none());
    let q = parse_query_params("/p?flag&k=v=w");
    assert_eq!(q.get_single("flag").unwrap(), "");
    assert_eq!(q.get_single("k").unwrap(), "v=w");
}

#[test]
fn request_head_parsing() {
    let head = parse_request_head(
        b"POST /a?x=1 HTTP/1.1\r\nHost: h\r\nExpect: 100-Continue\r\nContent-Length: 3\r\n\r\n".to_vec(),
    )
    .unwrap();
    assert_eq!(head.method, HttpMethod::POST);
    assert_eq!(head.http_version, HttpVersion::Http1_1);
    assert_eq!(head.path, "/a?x=1");
    assert!(head.expects_continue);
    assert_eq!(head.headers.get_single("host").unwrap(), "h");
    let req: Request = build_request(head, b"abc".to_vec());
    assert_eq!(req.body, b"abc".to_vec());
    assert_eq!(req.query_params.get_single("x").unwrap(), "1");
    assert!(!req.path_params.has("x"));
}

#[test]
fn request_head_errors() {
    assert!(matches!(
        parse_request_head(b"GET / HTTP/1.1\r\nContent-Length: 5\r\n\r\n".to_vec()),
        Err(RequestParsingError::InvalidRequest)
    ));
    assert!(matches!(
        parse_request_head(
            b"POST / HTTP/1.1\r\nHost: a\r\nContent-Length: 5\r\nTransfer-Encoding: chunked\r\n\r\n".to_vec()
        ),
        Err(RequestParsingError::InvalidRequest)
    ));
    assert!(matches!(parse_request_head(vec![0xff, 0xfe, b'\r', b'\n']), Err(RequestParsingError::InvalidRequest)));
    assert!(matches!(parse_request_head(b"GET / HTTP/1.1".to_vec()), Err(RequestParsingError::InvalidRequest)));
    assert!(matches!(
        parse_request_head(b"INVALID_REQUEST_LINE\r\nHost: example.com\r\n\r\n".to_vec()),
        Err(RequestParsingError::UnhandledRequest)
    ));
    assert!(matches!(
        parse_request_head(b"GET /path HTTP/1.1\r\nHost: example.com\r\nInvalid-Header\r\n\r\n".to_vec()),
        Err(RequestParsingError::InvalidHeader)
    ));
    assert!(parse_request_head(b"GET / HTTP/1.0\r\n\r\n".to_vec()).is_ok());
}

#[test]
fn body_framing_cases() {
    let head = |extra: &str| {
        parse_request_head(format!("POST / HTTP/1.1\r\nHost: h\r\n{}\r\n", extra).into_bytes()).unwrap()
    };
    assert_eq!(parse_body_framing(&head("").headers, 10).unwrap(), BodyFraming::Empty);
    assert_eq!(
        parse_body_framing(&head("Content-Length: 10\r\n").headers, 10).unwrap(),
        BodyFraming::ContentLength(10)
    );
    assert!(matches!(
        parse_body_framing(&head("Content-Length: 11\r\n").headers, 10),
        Err(RequestParsingError::PayloadTooLarge)
    ));
    assert!(matches!(
        parse_body_framing(&head("Content-Length: x\r\n").headers, 10),
        Err(RequestParsingError::InvalidHeader)
    ));
    assert_eq!(
        parse_body_framing(&head("Transfer-Encoding: chunked\r\n").headers, 10).unwrap(),
        BodyFraming::Chunked
    );
    assert!(matches!(
        parse_body_framing(&head("Transfer-Encoding: gzip\r\n").headers, 10),
        Err(RequestParsingError::InvalidHeader)
    ));
}

// ===== Reading =====

#[test]
fn read_sizes() {
    assert_eq!(read_n_request_size(0, 13), 13);
    assert_eq!(read_n_request_size(0, 100000), BUFFER_SIZE);
    assert_eq!(read_until_request_size(10, 16), 6);
    assert_eq!(read_n_step(b"ab".to_vec(), b"c", 3), (b"abc".to_vec(), true));
    assert_eq!(read_n_step(b"ab".to_vec(), b"c", 5), (b"abc".to_vec(), false));
    assert_eq!(read_n_step(b"ab".to_vec(), b"", 5), (b"ab".to_vec(), true));
}

#[test]
fn read_until_steps() {
    assert!(matches!(
        read_until_step(b"GET".to_vec(), b" /\r\n\r\nrest", b"\r\n\r\n", 100),
        UntilStep::Found(ref a, ref b) if a == b"GET /\r\n\r\n" && b == b"rest"
    ));
    assert!(matches!(
        read_until_step(b"GET".to_vec(), b" /", b"\r\n\r\n", 100),
        UntilStep::Continue(ref a) if a == b"GET /"
    ));
    assert!(matches!(read_until_step(b"GET".to_vec(), b" /", b"\r\n\r\n", 5), UntilStep::TooLarge));
    assert!(matches!(
        read_until_step(b"GET".to_vec(), b"", b"\r\n\r\n", 5),
        UntilStep::EndOfInput(ref a) if a == b"GET"
    ));
}

#[test]
fn chunk_sizes() {
    assert_eq!(chunk_size_of(b"4\r\n"), 4);
    assert_eq!(chunk_size_of(b"c\r\n"), 12);
    assert_eq!(chunk_size_of(b" 1A \r\n"), 26);
    assert_eq!(chunk_size_of(b"zz\r\n"), 0);
    assert_eq!(chunk_size_of(b"\r\n"), 0);
}

/// Runs the chunked reader over a body that is entirely at hand.
fn decode_at_hand(data: &[u8], max_size: usize) -> Result<Vec<u8>, ReadError> {
    let mut body = ChunkedBody::new(data.to_vec(), max_size);
    loop {
        match body.start_chunk() {
            ChunkStart::Limit => break,
            ChunkStart::SizeLine(line, rest) => {
                let n = chunk_size_of(&line);
                match body.on_chunk_size(n, rest) {
                    ChunkAction::Finish => break,
                    ChunkAction::Continue => continue,
                    ChunkAction::TooLarge => return Err(ReadError::MaxSizeExceeded),
                    ChunkAction::ReadRest(_, _) => panic!("more input wanted"),
                }
            }
            ChunkStart::TooLarge => return Err(ReadError::MaxSizeExceeded),
            ChunkStart::ReadMore | ChunkStart::ReadSizeLine(_) => panic!("more input wanted"),
        }
    }
    body.finish()
}

#[test]
fn test_parse_chunked_body_at_hand() {
    assert_eq!(decode_at_hand(b"4\r\nWiki\r\n5\r\npedia\r\n0\r\n\r\n", 1000).unwrap(), b"Wikipedia");
    assert!(matches!(
        decode_at_hand(b"4\r\nWiki\r\n5\r\npedia\r\n0\r\n\r\n", 6),
        Err(ReadError::MaxSizeExceeded)
    ));
}

#[test]
fn chunked_reader_asks_for_more() {
    let mut body = ChunkedBody::new(b"4\r\nWi".to_vec(), 100);
    let (line, rest) = match body.start_chunk() {
        ChunkStart::SizeLine(l, r) => (l, r),
        _ => panic!("size line expected"),
    };
    assert_eq!(line, b"4\r\n");
    assert_eq!(body.on_chunk_size(chunk_size_of(&line), rest), ChunkAction::ReadRest(4, 2));
    body.add_chunk_tail(b"ki\r\n", 2);
    assert!(matches!(body.start_chunk(), ChunkStart::ReadSizeLine(96)));
    let mut partial = ChunkedBody::new(b"1".to_vec(), 100);
    assert!(matches!(partial.start_chunk(), ChunkStart::ReadMore));
    partial.add_pending(b"\r\nx\r\n0");
    assert!(matches!(partial.start_chunk(), ChunkStart::SizeLine(ref l, _) if l == b"1\r\n"));
    assert_eq!(body.finish().unwrap(), b"Wiki");
}

#[test]
fn content_length_bodies() {
    assert_eq!(content_length_start(13, b"Hello".to_vec(), 100).unwrap(), (b"Hello".to_vec(), 8));
    assert_eq!(content_length_start(3, b"Hello".to_vec(), 100).unwrap(), (b"Hello".to_vec(), 0));
    assert!(matches!(content_length_start(101, vec![], 100), Err(ReadError::MaxSizeExceeded)));
}

#[test]
fn read_errors_as_request_errors() {
    assert!(matches!(read_error_to_parsing_error(ReadError::MaxSizeExceeded), RequestParsingError::PayloadTooLarge));
    assert!(matches!(read_error_to_parsing_error(ReadError::Timeout), RequestParsingError::Timeout));
    assert!(matches!(read_error_to_parsing_error(ReadError::Cancellation), RequestParsingError::Cancellation));
    assert!(matches!(read_error_to_parsing_error(ReadError::UnexpectedError), RequestParsingError::InvalidBody));
    let io = std::io::Error::new(std::io::ErrorKind::BrokenPipe, "gone");
    assert!(matches!(
        read_error_to_parsing_error(ReadError::IoError(io)),
        RequestParsingError::IoError(ref e) if e.kind() == std::io::ErrorKind::BrokenPipe
    ));
}

// ===== Routing =====

fn route(path: &str, method: HttpMethod) -> Route {
    Route { path: path.to_string(), method }
}

#[test]
fn path_patterns() {
    assert!(path_matches(&route("/users/:id", HttpMethod::GET), "/users/42"));
    assert!(!path_matches(&route("/users/:id", HttpMethod::GET), "/users/42/x"));
    assert!(!path_matches(&route("/users/:id", HttpMethod::GET), "/posts/42"));
    assert!(path_matches(&route("/a", HttpMethod::GET), "/a"));
    assert!(!path_matches(&route("/a", HttpMethod::GET), "/a/"));
    assert!(method_matches(&route("/a", HttpMethod::ALL), &HttpMethod::PUT));
    assert!(!method_matches(&route("/a", HttpMethod::GET), &HttpMethod::PUT));
}

#[test]
fn path_parameters() {
    let p = get_path_params(&route("/posts/:post_id/comments/:comment_id", HttpMethod::GET), "/posts/1/comments/2");
    assert_eq!(p.get("post_id").unwrap(), "1");
    assert_eq!(p.get("comment_id").unwrap(), "2");
    assert_eq!(p.get("posts"), None);
}

#[test]
fn route_selection() {
    let routes = vec![route("/a", HttpMethod::GET), route("/a", HttpMethod::ALL), route("/b/:x", HttpMethod::POST)];
    assert_eq!(select_route(&routes, &HttpMethod::GET, "/a"), RouteDecision::Handle(0));
    assert_eq!(select_route(&routes, &HttpMethod::PUT, "/a"), RouteDecision::Handle(1));
    assert_eq!(select_route(&routes, &HttpMethod::GET, "/b/1"), RouteDecision::MethodNotAllowed);
    assert_eq!(select_route(&routes, &HttpMethod::GET, "/c"), RouteDecision::NotFound);
}

#[test]
fn options_agrees_with_routing() {
    let routes = vec![route("/a", HttpMethod::GET), route("/a", HttpMethod::PUT), route("/a", HttpMethod::TRACE)];
    assert_eq!(allowed_methods_header(&routes, "/a").unwrap(), "GET, OPTIONS, PUT");
    for m in [HttpMethod::DELETE, HttpMethod::GET, HttpMethod::HEAD, HttpMethod::PATCH, HttpMethod::POST, HttpMethod::PUT] {
        let handled = matches!(select_route(&routes, &m, "/a"), RouteDecision::Handle(_));
        let allow = allowed_methods_header(&routes, "/a").unwrap();
        let listed = allow.split(", ").any(|t| t == format!("{:?}", m));
        assert_eq!(handled, listed);
    }
    assert_eq!(allowed_methods_header(&vec![route("/t", HttpMethod::TRACE)], "/t"), None);
    assert_eq!(allowed_methods_header(&routes, "/z"), None);
}

// ===== Server decisions =====

#[test]
fn configuration_defaults() {
    let c = HttpServerConfig::default();
    assert_eq!(c.size_config.request_header_max_size, 8192);
    assert_eq!(c.size_config.request_body_max_size, 10 * 1024 * 1024);
    assert_eq!(c.timeout_config.read_timeout_duration, std::time::Duration::from_secs(5));
    assert_eq!(c.timeout_config.write_timeout_duration, std::time::Duration::from_secs(5));
    assert!(matches!(c.shutdown_mode, ShutdownMode::Graceful(d) if d == std::time::Duration::from_secs(30)));
    assert_eq!(HttpServerSizeConfig::default().request_header_max_size, 8192);
    assert_eq!(HttpServerTimeoutConfig::default().read_timeout_duration.as_secs(), 5);
    assert!(matches!(ShutdownMode::default(), ShutdownMode::Graceful(_)));
}

#[test]
fn targets_are_normalised() {
    assert_eq!(normalize_target("/plain"), "/plain");
    assert_eq!(normalize_target("http://example.com/a/b"), "/a/b");
    assert_eq!(normalize_target("http://example.com/path"), "/path");
    assert_eq!(normalize_target("http://example.com"), "/");
}

#[test]
fn failure_replies() {
    assert_eq!(parse_failure_reply(&RequestParsingError::InvalidHeader), FailureReply::Respond(code(400)));
    assert_eq!(parse_failure_reply(&RequestParsingError::UnhandledRequest), FailureReply::Respond(code(400)));
    assert_eq!(parse_failure_reply(&RequestParsingError::PayloadTooLarge), FailureReply::Respond(code(413)));
    assert_eq!(parse_failure_reply(&RequestParsingError::Timeout), FailureReply::Close);
    assert_eq!(parse_failure_reply(&RequestParsingError::UnexpectedError), FailureReply::Close);
    let io = std::io::Error::new(std::io::ErrorKind::Other, "x");
    assert_eq!(parse_failure_reply(&RequestParsingError::IoError(io)), FailureReply::Propagate);
}

#[test]
fn connection_actions() {
    assert_eq!(connection_action(&Ok((b"GET / HTTP/1.1\r\n\r\n".to_vec(), vec![]))), ConnectionAction::Process);
    assert_eq!(connection_action(&Ok((b"GET /".to_vec(), vec![]))), ConnectionAction::RejectInvalid);
    assert_eq!(connection_action(&Ok((vec![], vec![]))), ConnectionAction::RejectInvalid);
    assert_eq!(connection_action(&Err(ReadError::MaxSizeExceeded)), ConnectionAction::RespondTooLarge);
    assert_eq!(connection_action(&Err(ReadError::Timeout)), ConnectionAction::Close);
    let io = std::io::Error::new(std::io::ErrorKind::Other, "x");
    assert_eq!(connection_action(&Err(ReadError::IoError(io))), ConnectionAction::Fail);
}

#[test]
fn close_requests() {
    let head = parse_request_head(b"GET / HTTP/1.1\r\nHost: h\r\nConnection: Close\r\n\r\n".to_vec()).unwrap();
    assert!(wants_close(&head.headers));
    let head = parse_request_head(b"GET / HTTP/1.1\r\nHost: h\r\nConnection: keep-alive\r\n\r\n".to_vec()).unwrap();
    assert!(!wants_close(&head.headers));
}

#[test]
fn encoded_responses() {
    let head = parse_request_head(b"GET / HTTP/1.1\r\nHost: h\r\n\r\n".to_vec()).unwrap();
    let out = encode_response(&head.headers, text("hi").header("X-A", "b")).unwrap();
    assert_eq!(
        out,
        b"HTTP/1.1 200 OK\r\nContent-Type: text/plain\r\nContent-Length: 2\r\nX-A: b\r\n\r\nhi".to_vec()
    );
    let out = encode_simple_response(&status(code(400)));
    assert_eq!(out, b"HTTP/1.1 400 Bad Request\r\nContent-Length: 0\r\n\r\n".to_vec());
    let gz = parse_request_head(b"GET / HTTP/1.1\r\nHost: h\r\nAccept-Encoding: gzip, br\r\n\r\n".to_vec()).unwrap();
    let out = encode_response(&gz.headers, bytes(b"raw".to_vec())).unwrap();
    assert!(out.ends_with(b"\r\n\r\nraw"));
    assert!(!bytes_contain(&out, b"Content-Encoding"));
    let out = encode_response(&gz.headers, text("hi")).unwrap();
    let (head_bytes, body) = bytes_split(&out, b"\r\n\r\n").unwrap();
    assert_eq!(body, gzip_compress(b"hi").unwrap());
    let head_text = String::from_utf8(head_bytes).unwrap();
    assert!(body.len() <= 8192);
    assert!(!head_text.contains("Transfer-Encoding"));
    assert!(head_text.contains("Content-Encoding: gzip"));
    assert!(head_text.contains(&format!("Content-Length: {}", body.len())));
}

#[test]
fn chunked_response_reads_back() {
    let head = parse_request_head(b"GET / HTTP/1.1\r\nHost: h\r\n\r\n".to_vec()).unwrap();
    let data: Vec<u8> = (0..20000u32).map(|i| (i % 251) as u8).collect();
    let out = encode_response(&head.headers, bytes(data.clone())).unwrap();
    let (_, body) = bytes_split(&out, b"\r\n\r\n").unwrap();
    assert_eq!(decode_at_hand(&body, 1_000_000).unwrap(), data);
}

#[test]
fn error_texts() {
    assert_eq!(RequestParsingError::InvalidHeader.to_string(), "InvalidHeader");
    assert_eq!(RequestParsingError::PayloadTooLarge.to_string(), "PayloadTooLarge");
    let io = std::io::Error::new(std::io::ErrorKind::Other, "boom");
    assert_eq!(RequestParsingError::IoError(io).to_string(), "IoError: boom");
    assert_eq!(ReadError::MaxSizeExceeded.to_string(), "Max size exceeded");
    assert_eq!(ReadError::Cancellation.to_string(), "Read cancelled");
    let io = std::io::Error::new(std::io::ErrorKind::Other, "boom");
    assert_eq!(ReadError::IoError(io).to_string(), "IO Error: boom");
}

#[test]
fn request_actions() {
    let routes = vec![route("/a", HttpMethod::GET), route("/b/:x", HttpMethod::ALL)];
    assert!(matches!(request_action(&routes, &HttpMethod::OPTIONS, "/a"), RequestAction::Allow(ref s) if s == "GET, OPTIONS"));
    assert!(matches!(request_action(&routes, &HttpMethod::OPTIONS, "/z"), RequestAction::Respond(c) if c == code(404)));
    assert!(matches!(request_action(&routes, &HttpMethod::GET, "/a"), RequestAction::Handle(0)));
    assert!(matches!(request_action(&routes, &HttpMethod::PUT, "/b/1"), RequestAction::Handle(1)));
    assert!(matches!(request_action(&routes, &HttpMethod::POST, "/a"), RequestAction::Respond(c) if c == code(405)));
    assert!(matches!(request_action(&routes, &HttpMethod::GET, "/z"), RequestAction::Respond(c) if c == code(404)));
}

#[test]
fn response_with_given_body() {
    let head = parse_request_head(b"GET / HTTP/1.1\r\nHost: h\r\nAccept-Encoding: gzip\r\n\r\n".to_vec()).unwrap();
    let out = encode_response_with_body(&head.headers, &text("ignored"), b"xyz".to_vec());
    assert_eq!(
        out,
        b"HTTP/1.1 200 OK\r\nContent-Encoding: gzip\r\nContent-Type: text/plain\r\nContent-Length: 3\r\n\r\nxyz".to_vec()
    );
}

#[test]
fn chunk_cut_inside_its_crlf() {
    let mut body = ChunkedBody::new(b"4\r\nWiki\r".to_vec(), 100);
    let (line, rest) = match body.start_chunk() {
        ChunkStart::SizeLine(l, r) => (l, r),
        _ => panic!("size line expected"),
    };
    assert_eq!(body.on_chunk_size(chunk_size_of(&line), rest), ChunkAction::ReadRest(1, 0));
    body.add_chunk_tail(b"\n", 0);
    assert_eq!(body.finish().unwrap(), b"Wiki");
}

#[test]
fn registered_status_list() {
    let all = http_server::status_code::ALL();
    assert_eq!(all.len(), 62);
    for s in &all {
        assert_eq!(StatusCode::from_u16(s.code), Some(*s));
    }
    assert_eq!(http_server::status_code::NOT_FOUND(), code(404));
    assert_eq!(http_server::status_code::IM_A_TEAPOT().reason, "I'm a teapot");
}

#[test]
fn known_media_type_list() {
    let all = http_server::mime_type::ALL();
    assert_eq!(all.len(), 20);
    for m in &all {
        assert_eq!(MimeType::from_str(&m.to_string()), Some(m.clone()));
    }
    assert!(http_server::mime_type::IMAGE_PNG().is_binary);
    assert!(!http_server::mime_type::APPLICATION_JSON().is_binary);
}

#[test]
fn redirect_is_text() {
    assert!(!redirect("/x").content_type.is_binary);
}

#[test]
fn header_block_failures() {
    assert!(parse_headers(&["Host: a", "Accept: x", "Accept: y", ""]).is_ok());
    assert!(matches!(parse_headers(&["Host: a", "host: b"]), Err(RequestParsingError::InvalidHeader)));
    assert!(matches!(parse_headers(&["Host: a", "bad line"]), Err(RequestParsingError::InvalidHeader)));
    assert!(matches!(parse_headers(&["X[]: a"]), Err(RequestParsingError::InvalidHeader)));
    let m = parse_headers(&["Via: 1", "Host: h", "VIA: 2"]).unwrap();
    assert_eq!(m.get("via").unwrap().as_slice(), vec![&"1".to_string(), &"2".to_string()]);
    assert!(m.has("host"));
    assert!(!m.has("x"));
}

#[test]
fn handler_requests() {
    let head = parse_request_head(b"POST /users/9?q=1 HTTP/1.1\r\nHost: h\r\n\r\n".to_vec()).unwrap();
    let req = build_request(head, b"body".to_vec());
    let (call, kept) = http_server::server::handler_request(&route("/users/:id", HttpMethod::POST), req);
    // The target keeps its query string, so the last segment carries it.
    assert_eq!(call.path_params.get("id").unwrap(), "9?q=1");
    assert_eq!(call.body, b"body".to_vec());
    assert_eq!(call.method, HttpMethod::POST);
    assert_eq!(call.query_params.get_single("q").unwrap(), "1");
    assert_eq!(kept.headers.get_single("host").unwrap(), "h");
    assert!(kept.body.is_empty());
    assert_eq!(kept.method, HttpMethod::GET);
    assert!(kept.path.is_empty());
}
