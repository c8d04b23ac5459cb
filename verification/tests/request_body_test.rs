//! Reading whole requests from a mock socket, the reads driven by the
//! library's reading decisions.

use http_server::map::{DuplicateMap, ParamMap};
use http_server::reading::{
    chunk_size_of, content_length_start, read_error_to_parsing_error, read_n_request_size,
    read_n_step, read_until_request_size, read_until_step, ChunkAction, ChunkStart, ChunkedBody,
    ReadError, UntilStep, BUFFER_SIZE,
};
use http_server::request::{
    build_request, parse_body_framing, parse_request_head, BodyFraming, Request,
    RequestParsingError,
};
use http_server::server::HttpServerConfig;

struct MockSocketReader {
    data: Vec<u8>,
    position: usize,
}

impl MockSocketReader {
    fn read_buffer(&mut self, buf: &mut [u8]) -> usize {
        if self.position >= self.data.len() {
            return 0;
        }
        let bytes_to_read = std::cmp::min(buf.len(), self.data.len() - self.position);
        buf[..bytes_to_read].copy_from_slice(&self.data[self.position..self.position + bytes_to_read]);
        self.position += bytes_to_read;
        bytes_to_read
    }

    fn read_n(&mut self, size: usize) -> Vec<u8> {
        let mut output = Vec::new();
        let mut buffer = [0u8; BUFFER_SIZE];
        loop {
            let want = read_n_request_size(output.len(), size);
            let read = self.read_buffer(&mut buffer[..want]);
            let (next, done) = read_n_step(output, &buffer[..read], size);
            output = next;
            if done {
                return output;
            }
        }
    }

    fn read_until(&mut self, delimiter: &[u8], max_size: usize) -> Result<(Vec<u8>, Vec<u8>), ReadError> {
        let mut buffer = [0u8; BUFFER_SIZE];
        let mut output = Vec::new();
        loop {
            let want = read_until_request_size(output.len(), max_size);
            let read = self.read_buffer(&mut buffer[..want]);
            match read_until_step(output, &buffer[..read], delimiter, max_size) {
                UntilStep::Continue(next) => output = next,
                UntilStep::Found(before, after) => return Ok((before, after)),
                UntilStep::EndOfInput(all) => return Ok((all, vec![])),
                UntilStep::TooLarge => return Err(ReadError::MaxSizeExceeded),
            }
        }
    }

    fn read_chunked(&mut self, extra_bytes: Vec<u8>, max_size: usize) -> Result<Vec<u8>, ReadError> {
        let mut body = ChunkedBody::new(extra_bytes, max_size);
        loop {
            let (size_line, extra) = match body.start_chunk() {
                ChunkStart::Limit => break,
                ChunkStart::TooLarge => return Err(ReadError::MaxSizeExceeded),
                ChunkStart::ReadMore => {
                    let read_bytes = self.read_n(5);
                    body.add_pending(&read_bytes);
                    continue;
                }
                ChunkStart::SizeLine(line, rest) => (line, rest),
                ChunkStart::ReadSizeLine(limit) => self.read_until(b"\r\n", limit)?,
            };
            let chunk_size = chunk_size_of(&size_line);
            match body.on_chunk_size(chunk_size, extra) {
                ChunkAction::Finish => break,
                ChunkAction::TooLarge => return Err(ReadError::MaxSizeExceeded),
                ChunkAction::Continue => continue,
                ChunkAction::ReadRest(remaining, owed) => {
                    let chunk_data = self.read_n(remaining);
                    body.add_chunk_tail(&chunk_data, owed);
                }
            }
        }
        body.finish()
    }
}

fn parse_chunked_body(client: &mut MockSocketReader, extra_bytes: Vec<u8>, config: HttpServerConfig) -> Result<Vec<u8>, ReadError> {
    client.read_chunked(extra_bytes, config.size_config.request_body_max_size)
}

fn parse_body_from_content_length(
    client: &mut MockSocketReader,
    content_length: usize,
    extra_bytes: Vec<u8>,
    config: HttpServerConfig,
) -> Result<Vec<u8>, ReadError> {
    let (mut body, more) = content_length_start(content_length, extra_bytes, config.size_config.request_body_max_size)?;
    if more > 0 {
        body.extend(client.read_n(more));
    }
    Ok(body)
}

fn parse_body(
    client: &mut MockSocketReader,
    header_map: &ParamMap<DuplicateMap>,
    extra_bytes: Vec<u8>,
    config: HttpServerConfig,
) -> Result<Vec<u8>, RequestParsingError> {
    let body = match parse_body_framing(header_map, config.size_config.request_body_max_size)? {
        BodyFraming::Empty => Ok(vec![]),
        BodyFraming::ContentLength(n) => parse_body_from_content_length(client, n, extra_bytes, config),
        BodyFraming::Chunked => parse_chunked_body(client, extra_bytes, config),
    };
    body.map_err(read_error_to_parsing_error)
}

fn parse_request(
    client: &mut MockSocketReader,
    request_headers: Vec<u8>,
    extra_bytes: Vec<u8>,
    config: HttpServerConfig,
) -> Result<Request, RequestParsingError> {
    let head = parse_request_head(request_headers)?;
    let body = parse_body(client, &head.headers, extra_bytes, config)?;
    Ok(build_request(head, body))
}

fn split_request(request: &str) -> (Vec<u8>, MockSocketReader) {
    let (headers_part, body_part) = request.split_once("\r\n\r\n").unwrap();
    let head = headers_part.as_bytes().to_vec();
    (head, MockSocketReader { data: body_part.as_bytes().to_vec(), position: 0 })
}

#[test]
fn test_parse_chunked_body() {
    let mut mock_socket = MockSocketReader { data: b"4\r\nWiki\r\n5\r\npedia\r\n0\r\n\r\n".to_vec(), position: 0 };
    let config = HttpServerConfig::default();
    let result = parse_chunked_body(&mut mock_socket, vec![], config).unwrap();
    assert_eq!(result, b"Wikipedia");
}

#[test]
fn test_parse_body_from_content_length() {
    let mut mock_socket = MockSocketReader { data: b"Hello, World!".to_vec(), position: 0 };
    let config = HttpServerConfig::default();
    let result = parse_body_from_content_length(&mut mock_socket, 13, vec![], config).unwrap();
    assert_eq!(result, b"Hello, World!");
}

#[test]
fn test_parse_request() {
    let (head, mut mock_socket) =
        split_request("GET /path?key=value HTTP/1.1\r\nHost: example.com\r\nContent-Length: 5\r\n\r\nHello");
    let config = HttpServerConfig::default();
    let result = parse_request(&mut mock_socket, head, vec![], config).unwrap();
    assert_eq!(result.method, http_server::http_method::HttpMethod::GET);
    assert_eq!(result.path, "/path?key=value");
    assert_eq!(result.query_params.get("key").unwrap().as_slice(), &[&"value".to_string()]);
    assert_eq!(result.headers.get("host").unwrap().as_slice(), &[&"example.com".to_string()]);
    assert_eq!(result.body, b"Hello");
}

#[test]
fn test_bad_request_missing_host() {
    let (head, mut mock_socket) = split_request("GET /path HTTP/1.1\r\nContent-Length: 5\r\n\r\nHello");
    let result = parse_request(&mut mock_socket, head, vec![], HttpServerConfig::default());
    assert!(result.is_err());
    assert!(matches!(result.err().unwrap(), RequestParsingError::InvalidRequest));
}

#[test]
fn test_bad_request_both_content_length_and_transfer_encoding() {
    let (head, mut mock_socket) = split_request(
        "POST /path HTTP/1.1\r\nHost: example.com\r\nContent-Length: 5\r\nTransfer-Encoding: chunked\r\n\r\nHello",
    );
    let result = parse_request(&mut mock_socket, head, vec![], HttpServerConfig::default());
    assert!(result.is_err());
    assert!(matches!(result.err().unwrap(), RequestParsingError::InvalidRequest));
}

#[test]
fn test_bad_request_invalid_header() {
    let (head, mut mock_socket) = split_request("GET /path HTTP/1.1\r\nHost: example.com\r\nInvalid-Header\r\n\r\n");
    let result = parse_request(&mut mock_socket, head, vec![], HttpServerConfig::default());
    assert!(result.is_err());
    assert!(matches!(result.err().unwrap(), RequestParsingError::InvalidHeader));
}

#[test]
fn test_bad_request_invalid_request_line() {
    let (head, mut mock_socket) = split_request("INVALID_REQUEST_LINE\r\nHost: example.com\r\n\r\n");
    let result = parse_request(&mut mock_socket, head, vec![], HttpServerConfig::default());
    assert!(result.is_err());
    assert!(matches!(result.err().unwrap(), RequestParsingError::UnhandledRequest));
}

#[test]
fn test_bad_request_oversized_body() {
    let (head, mut mock_socket) =
        split_request("POST /path HTTP/1.1\r\nHost: example.com\r\nContent-Length: 20\r\n\r\nHello");
    let mut config = HttpServerConfig::default();
    config.size_config.request_body_max_size = 10;
    let result = parse_request(&mut mock_socket, head, vec![], config);
    assert!(result.is_err());
    assert!(matches!(result.err().unwrap(), RequestParsingError::PayloadTooLarge));
}

#[test]
fn test_parse_chunked_body_with_extra_bytes() {
    let mut mock_socket = MockSocketReader { data: b"4\r\nWiki\r\n5\r\npedia\r\n0\r\n\r\n".to_vec(), position: 0 };
    let config = HttpServerConfig::default();
    let extra_bytes = b"4\r\nWiki\r\n".to_vec();
    let result = parse_chunked_body(&mut mock_socket, extra_bytes, config).unwrap();
    assert_eq!(result, b"WikiWikipedia");
}

#[test]
fn test_parse_body_from_content_length_with_extra_bytes() {
    let mut mock_socket = MockSocketReader { data: b", World!".to_vec(), position: 0 };
    let config = HttpServerConfig::default();
    let extra_bytes = b"Hello".to_vec();
    let result = parse_body_from_content_length(&mut mock_socket, 13, extra_bytes, config).unwrap();
    assert_eq!(result, b"Hello, World!");
}

#[test]
fn test_parse_body_with_extra_bytes() {
    let mut mock_socket = MockSocketReader { data: b", World!".to_vec(), position: 0 };
    let mut header_map: ParamMap<DuplicateMap> = ParamMap::default();
    header_map.add_require_single("content-length", "13".to_string()).unwrap();
    let config = HttpServerConfig::default();
    let extra_bytes = b"Hello".to_vec();
    let result = parse_body(&mut mock_socket, &header_map, extra_bytes, config).unwrap();
    assert_eq!(result, b"Hello, World!");
}

#[test]
fn test_parse_body_with_chunked_encoding_and_extra_bytes() {
    let mut mock_socket = MockSocketReader { data: b"5\r\npedia\r\n0\r\n\r\n".to_vec(), position: 0 };
    let mut header_map: ParamMap<DuplicateMap> = ParamMap::default();
    header_map.add_require_single("transfer-encoding", "chunked".to_string()).unwrap();
    let config = HttpServerConfig::default();
    let extra_bytes = b"4\r\nWiki\r\n".to_vec();
    let result = parse_body(&mut mock_socket, &header_map, extra_bytes, config).unwrap();
    assert_eq!(result, b"Wikipedia");
}

#[test]
fn chunked_body_split_across_reads() {
    let mut mock_socket = MockSocketReader { data: b"ki\r\n1\r\n!\r\n0\r\n\r\n".to_vec(), position: 0 };
    let result = parse_chunked_body(&mut mock_socket, b"4\r\nWi".to_vec(), HttpServerConfig::default()).unwrap();
    assert_eq!(result, b"Wiki!");
}

#[test]
fn chunked_body_in_small_reads() {
    let mut mock_socket = MockSocketReader { data: b"iki\r\n5\r\npedia\r\n0\r\n\r\n".to_vec(), position: 0 };
    let result = parse_chunked_body(&mut mock_socket, b"4\r\nW".to_vec(), HttpServerConfig::default()).unwrap();
    assert_eq!(result, b"Wikipedia");
}
