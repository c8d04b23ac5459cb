//! Server configuration and the decisions of the connection loop: what a
//! response looks like on the wire, how a target is normalised, and how
//! each read or parse outcome is answered.
use vstd::prelude::*;

use crate::http_method::HttpMethod;
use crate::map::{DuplicateMap, DuplicateValues, ParamMap, lookup};
use crate::routing::{
    Route, RouteDecision, allow_header_value, allowed_methods_header, get_path_params,
    path_param_pairs, route_decision, select_route,
};
use crate::http_version::HttpVersion;
use crate::request::Request;
use crate::number::{digit_value, law_numeral_reads_back, lemma_numeral_digits, numeral, numeral_chars};
use crate::reading::{BUFFER_SIZE, ReadError, announced_chunk_size, cut_after_crlf, lossy_text};
use crate::request::RequestParsingError;
use crate::response::{Response, header_pairs};
use crate::status_code::{StatusCode, status_of};
use crate::text::{
    chars_of, contains_seq, drop_n, find_chars_from, join_chars_from, join_seq, lemma_find_from,
    lowercase, split_chars, split_seq, str_eq, string_of, to_lowercase,
};
use crate::text::{
    find_seq, is_white_space, lemma_find_from_bytes, matches_at, trim_end_seq, trim_start_seq,
};
use crate::utils::{bytes_contain, gzip_compress, gzip_of, push_bytes};
use std::time::Duration;
use vstd::slice::slice_subrange;
use vstd::utf8::{encode_utf8, is_ascii_chars};

verus! {

/// The `Duration` that `Duration::from_secs` returns for `secs`.
pub uninterp spec fn duration_of_secs(secs: u64) -> Duration;

/// `Duration::from_secs`: a span of `secs` whole seconds.
#[verifier::external_body]
fn duration_from_secs(secs: u64) -> (r: Duration)
    ensures
        r == duration_of_secs(secs),
{
    Duration::from_secs(secs)
}

/// Size limits for requests.
#[derive(Clone, Copy)]
pub struct HttpServerSizeConfig {
    pub request_header_max_size: usize,
    pub request_body_max_size: usize,
}

impl Default for HttpServerSizeConfig {
    /// Heads up to 8 KiB, bodies up to 10 MiB.
    fn default() -> (r: Self)
        ensures
            r.request_header_max_size == 8192,
            r.request_body_max_size == 10 * 1024 * 1024,
    {
        HttpServerSizeConfig { request_header_max_size: 8192, request_body_max_size: 10 * 1024 * 1024 }
    }
}

/// Time limits for reading from and writing to a client.
#[derive(Clone, Copy)]
pub struct HttpServerTimeoutConfig {
    pub read_timeout_duration: Duration,
    pub write_timeout_duration: Duration,
}

impl Default for HttpServerTimeoutConfig {
    /// Five seconds each way.
    fn default() -> (r: Self)
        ensures
            r.read_timeout_duration == duration_of_secs(5),
            r.write_timeout_duration == duration_of_secs(5),
    {
        HttpServerTimeoutConfig {
            read_timeout_duration: duration_from_secs(5),
            write_timeout_duration: duration_from_secs(5),
        }
    }
}

/// How open connections are treated when the server is asked to stop.
#[derive(Clone, Copy)]
pub enum ShutdownMode {
    /// Cancel them at once.
    Immediate,
    /// Let them run for this long, then cancel them.
    Graceful(Duration),
}

impl Default for ShutdownMode {
    /// Thirty seconds of grace.
    fn default() -> (r: Self)
        ensures
            r == ShutdownMode::Graceful(duration_of_secs(30)),
    {
        ShutdownMode::Graceful(duration_from_secs(30))
    }
}

/// Configuration of a plain HTTP server.
#[derive(Clone, Copy)]
pub struct HttpServerConfig {
    pub size_config: HttpServerSizeConfig,
    pub timeout_config: HttpServerTimeoutConfig,
    pub shutdown_mode: ShutdownMode,
}

impl Default for HttpServerConfig {
    /// The default limits, time-outs and shutdown.
    fn default() -> (r: Self)
        ensures
            r.size_config.request_header_max_size == 8192,
            r.size_config.request_body_max_size == 10 * 1024 * 1024,
            r.timeout_config.read_timeout_duration == duration_of_secs(5),
            r.timeout_config.write_timeout_duration == duration_of_secs(5),
            r.shutdown_mode == ShutdownMode::Graceful(duration_of_secs(30)),
    {
        HttpServerConfig {
            size_config: HttpServerSizeConfig::default(),
            timeout_config: HttpServerTimeoutConfig::default(),
            shutdown_mode: ShutdownMode::default(),
        }
    }
}

/// Configuration of an HTTPS server.
pub struct HttpsServerConfig {
    pub size_config: HttpServerSizeConfig,
    pub timeout_config: HttpServerTimeoutConfig,
    pub shutdown_mode: ShutdownMode,
    pub cert_path: String,
    pub key_path: String,
}

/// Why no connection was accepted.
pub enum AcceptError {
    Shutdown,
    IoError(std::io::Error),
}

/// The client asked to close the connection: a single `connection` value
/// equal to `close` in any case.
pub open spec fn close_requested(headers: Seq<(Seq<char>, DuplicateValues)>) -> bool {
    match lookup(headers, "connection"@) {
        Some(DuplicateValues::Single(c)) => lowercase(c) == "close"@,
        _ => false,
    }
}

/// The client accepts gzip: a single `accept-encoding` value containing
/// `gzip`.
pub open spec fn gzip_accepted(headers: Seq<(Seq<char>, DuplicateValues)>) -> bool {
    match lookup(headers, "accept-encoding"@) {
        Some(DuplicateValues::Single(e)) => contains_seq(e, "gzip"@),
        _ => false,
    }
}

/// Whether the request with headers `headers` asks to close the connection.
pub fn wants_close(headers: &ParamMap<DuplicateMap>) -> (r: bool)
    ensures
        r == close_requested(headers@),
{
    match headers.get_single("connection") {
        Some(c) => {
            let lower = to_lowercase(c.as_str());
            str_eq(lower.as_str(), "close")
        },
        None => false,
    }
}

/// Whether `text` contains `pattern`.
fn str_contains(text: &str, pattern: &str) -> (r: bool)
    ensures
        r == contains_seq(text@, pattern@),
{
    let t = chars_of(text);
    let p = chars_of(pattern);
    let found = find_chars_from(&t, &p, 0);
    proof {
        lemma_find_from(t@, p@, 0);
    }
    found.is_some()
}

/// Whether the request with headers `headers` accepts gzip.
fn accepts_gzip(headers: &ParamMap<DuplicateMap>) -> (r: bool)
    ensures
        r == gzip_accepted(headers@),
{
    match headers.get_single("accept-encoding") {
        Some(e) => str_contains(e.as_str(), "gzip"),
        None => false,
    }
}

/// The header field lines `name: value` of `headers`, in order.
pub open spec fn field_lines(headers: Seq<(Seq<char>, Seq<char>)>) -> Seq<char>
    decreases headers.len(),
{
    if headers.len() == 0 {
        Seq::empty()
    } else {
        field_lines(headers.drop_last()) + headers.last().0 + ": "@ + headers.last().1 + "\r\n"@
    }
}

/// `s` when `b` holds, nothing otherwise.
pub open spec fn when(b: bool, s: Seq<char>) -> Seq<char> {
    if b {
        s
    } else {
        Seq::empty()
    }
}

/// The head of a response: status line, `Connection: close` when asked,
/// `Content-Encoding: gzip` when compressed, media type, length of the body
/// as sent, `Transfer-Encoding: chunked` for bodies longer than one buffer,
/// the extra fields, and the blank line.
pub open spec fn response_head(
    status: StatusCode,
    close: bool,
    gzip: bool,
    content_type: Seq<char>,
    body_len: nat,
    headers: Seq<(Seq<char>, Seq<char>)>,
) -> Seq<char> {
    "HTTP/1.1 "@ + numeral(status.code as nat, 10) + " "@ + status.reason@ + "\r\n"@ + when(
        close,
        "Connection: close\r\n"@,
    ) + when(gzip, "Content-Encoding: gzip\r\n"@) + "Content-Type: "@ + content_type + "\r\n"@
        + "Content-Length: "@ + numeral(body_len, 10) + "\r\n"@ + when(
        body_len > BUFFER_SIZE,
        "Transfer-Encoding: chunked\r\n"@,
    ) + field_lines(headers) + "\r\n"@
}

/// The length of the first chunk sent of `body`: one buffer, or what is
/// left when less.
pub open spec fn first_chunk_len(body: Seq<u8>) -> nat {
    if body.len() < BUFFER_SIZE {
        body.len()
    } else {
        BUFFER_SIZE as nat
    }
}

/// `body` in chunked transfer coding: chunks of one buffer (the last one
/// shorter), each as hexadecimal size, CRLF, data, CRLF, then the empty
/// last chunk.
pub open spec fn chunked_encoding(body: Seq<u8>) -> Seq<u8>
    decreases body.len(),
{
    if body.len() == 0 {
        encode_utf8("0\r\n\r\n"@)
    } else {
        let n = first_chunk_len(body);
        encode_utf8(numeral(n, 16) + "\r\n"@) + body.take(n as int) + encode_utf8("\r\n"@)
            + chunked_encoding(body.skip(n as int))
    }
}

/// The body as sent: as it is when it fits in one buffer, chunked
/// otherwise.
pub open spec fn body_on_wire(body: Seq<u8>) -> Seq<u8> {
    if body.len() > BUFFER_SIZE {
        chunked_encoding(body)
    } else {
        body
    }
}

/// The bytes sent for response `res` to a request with headers `headers`,
/// given the body as it is sent (compressed or not).
pub open spec fn response_bytes(
    headers: Seq<(Seq<char>, DuplicateValues)>,
    res: Response,
    sent_body: Seq<u8>,
) -> Seq<u8> {
    let gzip = gzip_accepted(headers) && !res.content_type.is_binary;
    encode_utf8(
        response_head(
            res.status_code,
            close_requested(headers),
            gzip,
            res.content_type.name@,
            sent_body.len(),
            header_pairs(res.headers@),
        ),
    ) + body_on_wire(sent_body)
}

/// Appends the numeral of `n` in base `radix` to `s`.
fn append_numeral(s: &mut String, n: usize, radix: usize)
    requires
        2 <= radix <= 16,
    ensures
        final(s)@ == old(s)@ + numeral(n as nat, radix as nat),
{
    let digits = numeral_chars(n, radix);
    let text = string_of(digits.as_slice());
    s.append(text.as_str());
}

/// Appends the UTF-8 encoding of `text` to `out`.
fn push_text(out: &mut Vec<u8>, text: &str)
    ensures
        final(out)@ == old(out)@ + encode_utf8(text@),
{
    push_bytes(out, text.as_bytes());
}

/// `body` in chunked transfer coding.
fn encode_chunked(out: &mut Vec<u8>, body: &Vec<u8>)
    ensures
        final(out)@ == old(out)@ + chunked_encoding(body@),
{
    let len = body.len();
    let mut start: usize = 0;
    assert(body@.skip(0) =~= body@);
    while start < len
        invariant
            start <= len,
            len == body@.len(),
            out@ + chunked_encoding(body@.skip(start as int)) == old(out)@ + chunked_encoding(
                body@,
            ),
        decreases len - start,
    {
        let end = if len - start < BUFFER_SIZE {
            len
        } else {
            start + BUFFER_SIZE
        };
        let chunk_size = end - start;
        let ghost rest = body@.skip(start as int);
        let ghost before = out@;
        let mut size_line = String::new();
        append_numeral(&mut size_line, chunk_size, 16);
        size_line.append("\r\n");
        push_text(out, size_line.as_str());
        let chunk = slice_subrange(body.as_slice(), start, end);
        push_bytes(out, chunk);
        push_text(out, "\r\n");
        proof {
            assert(chunk@ =~= rest.take(chunk_size as int));
            assert(rest.skip(chunk_size as int) =~= body@.skip(end as int));
            assert(size_line@ =~= numeral(chunk_size as nat, 16) + "\r\n"@);
            assert(chunked_encoding(rest) == encode_utf8(numeral(chunk_size as nat, 16) + "\r\n"@)
                + rest.take(chunk_size as int) + encode_utf8("\r\n"@) + chunked_encoding(
                rest.skip(chunk_size as int),
            ));
            assert(out@ =~= before + encode_utf8(numeral(chunk_size as nat, 16) + "\r\n"@)
                + rest.take(chunk_size as int) + encode_utf8("\r\n"@));
        }
        start = end;
    }
    push_text(out, "0\r\n\r\n");
    proof {
        assert(body@.skip(start as int) =~= Seq::<u8>::empty());
    }
}

/// Appends the field lines of `headers` to `s`.
fn append_field_lines(s: &mut String, headers: &Vec<(String, String)>)
    ensures
        final(s)@ == old(s)@ + field_lines(header_pairs(headers@)),
{
    let mut i: usize = 0;
    while i < headers.len()
        invariant
            i <= headers@.len(),
            s@ == old(s)@ + field_lines(header_pairs(headers@).take(i as int)),
        decreases headers@.len() - i,
    {
        let ghost before = s@;
        let (key, value) = &headers[i];
        s.append(key.as_str());
        s.append(": ");
        s.append(value.as_str());
        s.append("\r\n");
        proof {
            let next = header_pairs(headers@).take(i + 1);
            assert(next.drop_last() =~= header_pairs(headers@).take(i as int));
            assert(next.last() == (key@, value@));
        }
        i = i + 1;
    }
    assert(header_pairs(headers@).take(i as int) =~= header_pairs(headers@));
}

/// The body sent for `res` to a request with headers `headers`: the gzip
/// stream of a text body when the client accepts gzip (`None` when the
/// compression fails), the body as it is otherwise.
pub open spec fn sent_body(headers: Seq<(Seq<char>, DuplicateValues)>, res: Response) -> Option<
    Seq<u8>,
> {
    if gzip_accepted(headers) && !res.content_type.is_binary {
        gzip_of(res.bytes@)
    } else {
        Some(res.bytes@)
    }
}

/// The bytes to send for `res` in answer to a request with headers
/// `request_headers`, given the body as it is sent (`body`, compressed or
/// not; `res.bytes` is not read).
pub fn encode_response_with_body(
    request_headers: &ParamMap<DuplicateMap>,
    res: &Response,
    body: Vec<u8>,
) -> (r: Vec<u8>)
    ensures
        r@ == response_bytes(request_headers@, *res, body@),
{
    let mut head = String::from_str("HTTP/1.1 ");
    append_numeral(&mut head, res.status_code.code as usize, 10);
    head.append(" ");
    head.append(res.status_code.reason);
    head.append("\r\n");
    let close = wants_close(request_headers);
    if close {
        head.append("Connection: close\r\n");
    }
    let gzip = accepts_gzip(request_headers) && !res.content_type.is_binary;
    if gzip {
        head.append("Content-Encoding: gzip\r\n");
    }
    head.append("Content-Type: ");
    let media_name = res.content_type.to_string();
    head.append(media_name.as_str());
    head.append("\r\n");
    head.append("Content-Length: ");
    append_numeral(&mut head, body.len(), 10);
    head.append("\r\n");
    if body.len() > BUFFER_SIZE {
        head.append("Transfer-Encoding: chunked\r\n");
    }
    append_field_lines(&mut head, &res.headers);
    head.append("\r\n");
    proof {
        assert(head@ =~= response_head(
            res.status_code,
            close,
            gzip,
            res.content_type.name@,
            body@.len(),
            header_pairs(res.headers@),
        ));
    }
    let mut out: Vec<u8> = Vec::new();
    push_text(&mut out, head.as_str());
    if body.len() > BUFFER_SIZE {
        encode_chunked(&mut out, &body);
    } else {
        push_bytes(&mut out, body.as_slice());
    }
    assert(out@ =~= response_bytes(request_headers@, *res, body@));
    out
}

/// The bytes to send for `res` in answer to a request with headers
/// `request_headers`. Text bodies are compressed with gzip when the client
/// accepts it; the compression error is returned if it fails.
pub fn encode_response(request_headers: &ParamMap<DuplicateMap>, res: Response) -> (r: Result<
    Vec<u8>,
    std::io::Error,
>)
    ensures
        match sent_body(request_headers@, res) {
            Some(b) => r matches Ok(v) && v@ == response_bytes(request_headers@, res, b),
            None => r is Err,
        },
{
    let gzip = accepts_gzip(request_headers) && !res.content_type.is_binary;
    if gzip {
        match gzip_compress(res.bytes.as_slice()) {
            Ok(b) => Ok(encode_response_with_body(request_headers, &res, b)),
            Err(e) => Err(e),
        }
    } else {
        let body = res.bytes.clone();
        Ok(encode_response_with_body(request_headers, &res, body))
    }
}

/// The bytes of a minimal response: status line, `Content-Length`, blank
/// line and body.
pub open spec fn simple_response_bytes(res: Response) -> Seq<u8> {
    encode_utf8(
        "HTTP/1.1 "@ + numeral(res.status_code.code as nat, 10) + " "@ + res.status_code.reason@
            + "\r\nContent-Length: "@ + numeral(res.bytes@.len(), 10) + "\r\n\r\n"@,
    ) + res.bytes@
}

/// The bytes to send for `res` as a minimal response (used for errors).
pub fn encode_simple_response(res: &Response) -> (r: Vec<u8>)
    ensures
        r@ == simple_response_bytes(*res),
{
    let mut head = String::from_str("HTTP/1.1 ");
    append_numeral(&mut head, res.status_code.code as usize, 10);
    head.append(" ");
    head.append(res.status_code.reason);
    head.append("\r\nContent-Length: ");
    append_numeral(&mut head, res.bytes.len(), 10);
    head.append("\r\n\r\n");
    let mut out: Vec<u8> = Vec::new();
    push_text(&mut out, head.as_str());
    push_bytes(&mut out, res.bytes.as_slice());
    proof {
        assert(head@ =~= "HTTP/1.1 "@ + numeral(res.status_code.code as nat, 10) + " "@
            + res.status_code.reason@ + "\r\nContent-Length: "@ + numeral(res.bytes@.len(), 10)
            + "\r\n\r\n"@);
    }
    out
}

/// The target as routed: an absolute target (one containing `http`) loses
/// its scheme and authority, so `http://example.com/path` becomes `/path`:
/// a `/` followed by the segments after the third `/`.
pub open spec fn routed_target(path: Seq<char>) -> Seq<char> {
    if contains_seq(path, "http"@) {
        seq!['/'] + join_seq(drop_n(split_seq(path, seq!['/']), 3), seq!['/'])
    } else {
        path
    }
}

/// The target used for routing a request for `path`.
pub fn normalize_target(path: &str) -> (r: String)
    ensures
        r@ == routed_target(path@),
{
    if str_contains(path, "http") {
        let chars = chars_of(path);
        let slash = vec!['/'];
        assert(slash@ =~= seq!['/']);
        let parts = split_chars(&chars, &slash);
        let joined = join_chars_from(&parts, 3, &slash);
        let mut target = String::from_str("/");
        let rest = string_of(joined.as_slice());
        target.append(rest.as_str());
        proof {
            reveal_strlit("/");
            assert("/"@ =~= seq!['/']);
        }
        target
    } else {
        String::from_str(path)
    }
}

/// How a request that could not be parsed is answered.
#[derive(Debug, Clone, Copy, PartialEq, Eq)]
pub enum FailureReply {
    /// Send a minimal response with this status and keep the connection.
    Respond(StatusCode),
    /// Close the connection without answering.
    Close,
    /// Close the connection and report the transport error.
    Propagate,
}

/// The answer to a request that failed with `e`: `400` for malformed
/// requests, `413` for oversized ones, silence for cancellation, time-out
/// and unexpected states, and the error itself for transport failures.
pub open spec fn failure_reply(e: RequestParsingError) -> FailureReply {
    match e {
        RequestParsingError::InvalidBody | RequestParsingError::InvalidHeader
        | RequestParsingError::InvalidRequest | RequestParsingError::UnhandledRequest =>
            FailureReply::Respond(status_of(400)),
        RequestParsingError::PayloadTooLarge => FailureReply::Respond(status_of(413)),
        RequestParsingError::IoError(_) => FailureReply::Propagate,
        RequestParsingError::Timeout | RequestParsingError::Cancellation
        | RequestParsingError::UnexpectedError => FailureReply::Close,
    }
}

/// Decides how to answer a request that failed to parse with `e`.
pub fn parse_failure_reply(e: &RequestParsingError) -> (r: FailureReply)
    ensures
        r == failure_reply(*e),
{
    match e {
        RequestParsingError::InvalidBody | RequestParsingError::InvalidHeader
        | RequestParsingError::InvalidRequest | RequestParsingError::UnhandledRequest => {
            FailureReply::Respond(StatusCode::from(400u16))
        },
        RequestParsingError::PayloadTooLarge => FailureReply::Respond(StatusCode::from(413u16)),
        RequestParsingError::IoError(_) => FailureReply::Propagate,
        _ => FailureReply::Close,
    }
}

/// What the connection loop does after trying to read a request head.
#[derive(Debug, Clone, Copy, PartialEq, Eq, Structural)]
pub enum ConnectionAction {
    /// A complete head was read: process the request.
    Process,
    /// The peer stopped before a complete head: fail with invalid data.
    RejectInvalid,
    /// End the connection quietly.
    Close,
    /// The head is too large: answer `413` and keep reading.
    RespondTooLarge,
    /// End the connection with the transport error.
    Fail,
}

/// The action for the outcome of reading a request head.
pub open spec fn connection_action_for(outcome: Result<(Seq<u8>, Seq<u8>), ReadError>) -> ConnectionAction {
    match outcome {
        Ok((head, _)) => if contains_seq(head, seq![13u8, 10u8, 13u8, 10u8]) {
            ConnectionAction::Process
        } else {
            ConnectionAction::RejectInvalid
        },
        Err(ReadError::MaxSizeExceeded) => ConnectionAction::RespondTooLarge,
        Err(ReadError::IoError(_)) => ConnectionAction::Fail,
        Err(_) => ConnectionAction::Close,
    }
}

/// Decides what to do with the outcome of reading a request head.
pub fn connection_action(outcome: &Result<(Vec<u8>, Vec<u8>), ReadError>) -> (r: ConnectionAction)
    ensures
        r == connection_action_for(
            match outcome {
                Ok((h, x)) => Ok((h@, x@)),
                Err(e) => Err(*e),
            },
        ),
{
    match outcome {
        Ok((request, _)) => {
            let end: Vec<u8> = vec![13u8, 10u8, 13u8, 10u8];
            assert(end@ =~= seq![13u8, 10u8, 13u8, 10u8]);
            if bytes_contain(request, end.as_slice()) {
                ConnectionAction::Process
            } else {
                ConnectionAction::RejectInvalid
            }
        },
        Err(ReadError::MaxSizeExceeded) => ConnectionAction::RespondTooLarge,
        Err(ReadError::IoError(_)) => ConnectionAction::Fail,
        Err(_) => ConnectionAction::Close,
    }
}

proof fn lemma_encode_utf8_concat(a: Seq<char>, b: Seq<char>)
    ensures
        encode_utf8(a + b) == encode_utf8(a) + encode_utf8(b),
    decreases a.len(),
{
    if a.len() == 0 {
        assert(a + b =~= b);
    } else {
        assert((a + b).drop_first() =~= a.drop_first() + b);
        lemma_encode_utf8_concat(a.drop_first(), b);
        assert((a + b)[0] == a[0]);
    }
}

/// The size line written for a chunk of `n` bytes is cut at its CRLF from
/// whatever follows it, and announces `n`.
proof fn lemma_size_line_reads_back(n: usize, after: Seq<u8>)
    ensures
        cut_after_crlf(encode_utf8(numeral(n as nat, 16) + "\r\n"@) + after) == Some(
            (encode_utf8(numeral(n as nat, 16) + "\r\n"@), after),
        ),
        announced_chunk_size(encode_utf8(numeral(n as nat, 16) + "\r\n"@)) == n,
{
    broadcast use vstd::utf8::group_utf8_lib;

    reveal_strlit("\r\n");
    let digits = numeral(n as nat, 16);
    lemma_numeral_digits(n as nat, 16);
    law_numeral_reads_back(n, 16);
    let k = digits.len() as int;
    assert forall|i: int| 0 <= i < k implies '0' <= #[trigger] digits[i] <= 'z' by {
        assert(digit_value(digits[i], 16) is Some);
    }
    let text = digits + "\r\n"@;
    assert(is_ascii_chars(digits));
    assert(is_ascii_chars(text)) by {
        assert forall|i: int| 0 <= i < text.len() implies '\0' <= #[trigger] text[i] <= '\u{7f}' by {
            if i < k {
                assert(text[i] == digits[i]);
            }
        }
    }
    let line = encode_utf8(text);
    lemma_encode_utf8_concat(digits, "\r\n"@);
    assert(line.len() == k + 2);
    assert(line[k] == 13u8);
    assert(line[k + 1] == 10u8);
    let crlf = seq![13u8, 10u8];
    let w = line + after;
    assert(w.subrange(k, k + 2) =~= crlf);
    assert(matches_at(w, crlf, k));
    lemma_find_from_bytes(w, crlf, 0);
    assert forall|j: int| 0 <= j < k implies !matches_at(w, crlf, j) by {
        assert(w[j] == line[j]);
        assert(line[j] == text[j] as u8);
        assert(text[j] == digits[j]);
        assert(w.subrange(j, j + 2)[0] == w[j]);
    }
    assert(find_seq(w, crlf) == Some(k as int));
    assert(w.take(k + 2) =~= line);
    assert(w.skip(k + 2) =~= after);
    assert(line.take(line.len() - 2) =~= encode_utf8(digits));
    assert(lossy_text(encode_utf8(digits)) == digits);
    assert(!is_white_space(digits.last())) by {
        assert(digit_value(digits[k - 1], 16) is Some);
    }
    assert(!is_white_space(digits[0])) by {
        assert(digit_value(digits[0], 16) is Some);
    }
    assert(trim_end_seq(digits) == digits);
    assert(trim_start_seq(digits) == digits);
}

/// A body sent chunked reads back chunk by chunk: the first size line of
/// its encoding is cut at its CRLF and announces the first chunk's length;
/// that many bytes of the body follow, then CRLF, then the encoding of the
/// rest of the body. The encoding of an empty body announces zero.
pub proof fn law_chunked_encoding_reads_back(body: Seq<u8>)
    ensures
        cut_after_crlf(chunked_encoding(body)) matches Some((line, after)) && {
            let n = first_chunk_len(body);
            &&& announced_chunk_size(line) == n
            &&& after.len() >= n + 2
            &&& after.take(n as int) == body.take(n as int)
            &&& after.subrange(n as int, n as int + 2) == seq![13u8, 10u8]
            &&& after.skip(n as int + 2) == if body.len() == 0 {
                Seq::<u8>::empty()
            } else {
                chunked_encoding(body.skip(n as int))
            }
        },
{
    broadcast use vstd::utf8::group_utf8_lib;

    reveal_strlit("\r\n");
    reveal_strlit("0\r\n\r\n");
    let n = first_chunk_len(body);
    let crlf = encode_utf8("\r\n"@);
    assert(is_ascii_chars("\r\n"@));
    assert(crlf =~= seq![13u8, 10u8]);
    if body.len() == 0 {
        let zero = numeral(0, 16);
        assert(zero == seq!['0']);
        lemma_encode_utf8_concat(zero + "\r\n"@, "\r\n"@);
        assert(zero + "\r\n"@ + "\r\n"@ =~= "0\r\n\r\n"@);
        lemma_size_line_reads_back(0, crlf);
    } else {
        let data = body.take(n as int);
        let after = data + crlf + chunked_encoding(body.skip(n as int));
        lemma_size_line_reads_back(n as usize, after);
        assert(chunked_encoding(body) =~= encode_utf8(numeral(n, 16) + "\r\n"@) + after);
        assert(after.take(n as int) =~= data);
        assert(after.subrange(n as int, n as int + 2) =~= crlf);
        assert(after.skip(n as int + 2) =~= chunked_encoding(body.skip(n as int)));
    }
}

/// What the chunked reader makes of `pending` when all of it is at hand and
/// no limit applies: each size line is cut at its CRLF, the number of bytes
/// it announces is taken and the CRLF after them skipped, until a chunk of
/// size zero; `None` when the bytes run out first.
pub open spec fn chunks_at_hand(pending: Seq<u8>) -> Option<Seq<u8>>
    decreases pending.len(),
{
    match cut_after_crlf(pending) {
        None => None,
        Some((line, after)) => {
            let n = announced_chunk_size(line);
            if n == 0 {
                Some(Seq::empty())
            } else if after.len() < n + 2 {
                None
            } else {
                proof {
                    lemma_find_from_bytes(pending, seq![13u8, 10u8], 0);
                }
                match chunks_at_hand(after.skip(n + 2)) {
                    Some(rest) => Some(after.take(n as int) + rest),
                    None => None,
                }
            }
        },
    }
}

/// Reading back the chunked encoding of a body gives the body.
pub proof fn law_chunked_encoding_decodes(body: Seq<u8>)
    ensures
        chunks_at_hand(chunked_encoding(body)) == Some(body),
    decreases body.len(),
{
    law_chunked_encoding_reads_back(body);
    if body.len() == 0 {
        assert(body =~= Seq::<u8>::empty());
    } else {
        let n = first_chunk_len(body);
        law_chunked_encoding_decodes(body.skip(n as int));
        assert(body.take(n as int) + body.skip(n as int) =~= body);
    }
}

/// What to do with a parsed request.
pub enum RequestAction {
    /// Answer `OPTIONS` with `200 OK` and this `Allow` value.
    Allow(String),
    /// Call the handler of the route at this position.
    Handle(usize),
    /// Send a minimal response with this status.
    Respond(StatusCode),
}

/// Decides how a request for `method` on the (normalised) target `path` is
/// answered: `OPTIONS` lists the allowed methods, or gets `404` when none
/// is allowed there; any other method goes to the first route serving it,
/// else `405` when some route matches the path, else `404`.
pub fn request_action(routes: &Vec<Route>, method: &HttpMethod, path: &str) -> (r: RequestAction)
    ensures
        *method == HttpMethod::OPTIONS ==> match allow_header_value(routes@, path@) {
            Some(v) => r matches RequestAction::Allow(s) && s@ == v,
            None => r matches RequestAction::Respond(c) && c == status_of(404),
        },
        *method != HttpMethod::OPTIONS ==> match route_decision(routes@, *method, path@) {
            RouteDecision::Handle(i) => r matches RequestAction::Handle(j) && j == i,
            RouteDecision::MethodNotAllowed => r matches RequestAction::Respond(c) && c
                == status_of(405),
            RouteDecision::NotFound => r matches RequestAction::Respond(c) && c == status_of(404),
        },
{
    if *method == HttpMethod::OPTIONS {
        match allowed_methods_header(routes, path) {
            Some(allow) => RequestAction::Allow(allow),
            None => RequestAction::Respond(StatusCode::from(404u16)),
        }
    } else {
        match select_route(routes, method, path) {
            RouteDecision::Handle(i) => RequestAction::Handle(i),
            RouteDecision::MethodNotAllowed => RequestAction::Respond(StatusCode::from(405u16)),
            RouteDecision::NotFound => RequestAction::Respond(StatusCode::from(404u16)),
        }
    }
}

/// The requests around a call of the handler of `route` for `req`: the one
/// handed to the handler, which is `req` with the path parameters of
/// `route` filled in, and the one the handler's answer is encoded against,
/// which carries only `req`'s headers.
pub fn handler_request(route: &Route, req: Request) -> (r: (Request, Request))
    ensures
        r.0.method == req.method,
        r.0.http_version == req.http_version,
        r.0.body == req.body,
        r.0.path@ == req.path@,
        r.0.query_params@ == req.query_params@,
        r.0.headers@ == req.headers@,
        r.0.path_params@ == path_param_pairs(route.path@, req.path@),
        r.1.headers@ == req.headers@,
        r.1.method == HttpMethod::GET,
        r.1.http_version == HttpVersion::Http1_1,
        r.1.body@.len() == 0,
        r.1.path@.len() == 0,
        r.1.query_params@.len() == 0,
        r.1.path_params@.len() == 0,
{
    let mut call = req;
    call.path_params = get_path_params(route, call.path.as_str());
    let default_request = Request::default();
    let kept = Request { headers: call.headers.copy(), ..default_request };
    (call, kept)
}

/// The extra header fields of a response are written one line each, in
/// order: none gives nothing, and one more field `(key, value)` adds the
/// line `key: value` and CRLF after the lines of the fields before it.
pub proof fn law_field_lines_write_every_field(
    headers: Seq<(Seq<char>, Seq<char>)>,
    key: Seq<char>,
    value: Seq<char>,
)
    ensures
        field_lines(Seq::empty()) == Seq::<char>::empty(),
        field_lines(headers.push((key, value))) == field_lines(headers) + key + ": "@ + value
            + "\r\n"@,
{
    assert(headers.push((key, value)).drop_last() =~= headers);
}

/// The length of the field lines counts every field: each adds its key, its
/// value and four more characters.
pub proof fn law_field_lines_length(headers: Seq<(Seq<char>, Seq<char>)>)
    ensures
        field_lines(headers).len() == field_lines_length(headers),
    decreases headers.len(),
{
    reveal_strlit(": ");
    reveal_strlit("\r\n");
    if headers.len() > 0 {
        law_field_lines_length(headers.drop_last());
    }
}

/// The number of characters that the fields `headers` take on the wire:
/// for each, its key, `: `, its value and CRLF.
pub open spec fn field_lines_length(headers: Seq<(Seq<char>, Seq<char>)>) -> nat
    decreases headers.len(),
{
    if headers.len() == 0 {
        0
    } else {
        field_lines_length(headers.drop_last()) + headers.last().0.len() + headers.last().1.len()
            + 4
    }
}

} // verus!
