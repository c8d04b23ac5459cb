//! Responses and the helpers that build them.
use vstd::prelude::*;

use crate::mime_type::{MimeType, known_mime_binary, APPLICATION_OCTET_STREAM, TEXT_PLAIN};
use crate::status_code::{StatusCode, status_of};
use vstd::slice::slice_to_vec;
use vstd::utf8::encode_utf8;

verus! {

/// A response to send: media type, body, status and extra header fields.
#[derive(Debug, Clone)]
pub struct Response {
    pub content_type: MimeType,
    pub bytes: Vec<u8>,
    pub status_code: StatusCode,
    pub headers: Vec<(String, String)>,
}

/// The header fields of a response, as character sequences.
pub open spec fn header_pairs(h: Seq<(String, String)>) -> Seq<(Seq<char>, Seq<char>)> {
    h.map_values(|p: (String, String)| (p.0@, p.1@))
}

/// The media type a response gets for the name `name`: the known type, or
/// an unknown one with the given binary flag.
pub open spec fn media_type_for(name: Seq<char>, binary_if_unknown: bool) -> (Seq<char>, bool) {
    match known_mime_binary(name) {
        Some(b) => (name, b),
        None => (name, binary_if_unknown),
    }
}

/// The media type named `name`, known or not.
fn media_type(name: &str, binary_if_unknown: bool) -> (r: MimeType)
    ensures
        (r.name@, r.is_binary) == media_type_for(name@, binary_if_unknown),
{
    match MimeType::from_str(name) {
        Some(m) => m,
        None => MimeType::new(name, binary_if_unknown),
    }
}

impl Response {
    /// This response with the header field `key: value` added last.
    pub fn header(self, key: &str, value: &str) -> (r: Self)
        ensures
            header_pairs(r.headers@) == header_pairs(self.headers@).push((key@, value@)),
            r.content_type == self.content_type,
            r.bytes == self.bytes,
            r.status_code == self.status_code,
    {
        let mut res = self;
        let ghost before = res.headers@;
        res.headers.push((String::from_str(key), String::from_str(value)));
        proof {
            assert(header_pairs(res.headers@) =~= header_pairs(before).push((key@, value@)));
        }
        res
    }

    /// This response with status `status`.
    pub fn status(self, status: StatusCode) -> (r: Self)
        ensures
            r.status_code == status,
            r.content_type == self.content_type,
            r.bytes == self.bytes,
            r.headers == self.headers,
    {
        let mut res = self;
        res.status_code = status;
        res
    }

    /// This response with the media type named `content_type` (a known
    /// type, or an unknown text type).
    pub fn content_type(self, content_type: &str) -> (r: Self)
        ensures
            (r.content_type.name@, r.content_type.is_binary) == media_type_for(
                content_type@,
                false,
            ),
            r.bytes == self.bytes,
            r.status_code == self.status_code,
            r.headers == self.headers,
    {
        let mut res = self;
        res.content_type = media_type(content_type, false);
        res
    }

    /// This response with body `body`.
    pub fn body(self, body: &[u8]) -> (r: Self)
        ensures
            r.bytes@ == body@,
            r.content_type == self.content_type,
            r.status_code == self.status_code,
            r.headers == self.headers,
    {
        let mut res = self;
        res.bytes = slice_to_vec(body);
        res
    }
}

/// `200 OK`.
fn ok_status() -> (r: StatusCode)
    ensures
        r == status_of(200),
{
    StatusCode { code: 200, reason: "OK" }
}

/// An empty `text/plain` response with status `status`.
pub fn status(code: StatusCode) -> (r: Response)
    ensures
        r.status_code == code,
        r.content_type.name@ == "text/plain"@,
        !r.content_type.is_binary,
        r.bytes@.len() == 0,
        r.headers@.len() == 0,
{
    Response { content_type: TEXT_PLAIN(), bytes: Vec::new(), status_code: code, headers: Vec::new() }
}

/// A `200 OK` `text/plain` response whose body is `text` in UTF-8.
pub fn text(content: &str) -> (r: Response)
    ensures
        r.status_code == status_of(200),
        r.content_type.name@ == "text/plain"@,
        !r.content_type.is_binary,
        r.bytes@ == encode_utf8(content@),
        r.headers@.len() == 0,
{
    Response {
        content_type: TEXT_PLAIN(),
        bytes: slice_to_vec(content.as_bytes()),
        status_code: ok_status(),
        headers: Vec::new(),
    }
}

/// A `200 OK` `application/octet-stream` response with body `bytes`.
pub fn bytes(body: Vec<u8>) -> (r: Response)
    ensures
        r.status_code == status_of(200),
        r.content_type.name@ == "application/octet-stream"@,
        r.content_type.is_binary,
        r.bytes == body,
        r.headers@.len() == 0,
{
    Response {
        content_type: APPLICATION_OCTET_STREAM(),
        bytes: body,
        status_code: ok_status(),
        headers: Vec::new(),
    }
}

/// A response of the media type named `content_type`, which is text
/// unless it is a known binary type.
pub fn text_response(status: StatusCode, content_type: &str, bytes: Vec<u8>) -> (r: Response)
    ensures
        r.status_code == status,
        (r.content_type.name@, r.content_type.is_binary) == media_type_for(content_type@, false),
        r.bytes == bytes,
        r.headers@.len() == 0,
{
    Response {
        content_type: media_type(content_type, false),
        bytes,
        status_code: status,
        headers: Vec::new(),
    }
}

/// A response of the media type named `content_type`, which is binary
/// unless it is a known text type.
pub fn binary_response(status: StatusCode, content_type: &str, bytes: Vec<u8>) -> (r: Response)
    ensures
        r.status_code == status,
        (r.content_type.name@, r.content_type.is_binary) == media_type_for(content_type@, true),
        r.bytes == bytes,
        r.headers@.len() == 0,
{
    Response {
        content_type: media_type(content_type, true),
        bytes,
        status_code: status,
        headers: Vec::new(),
    }
}

/// A response with the given status, media type and body.
pub fn response(status: StatusCode, content_type: MimeType, bytes: Vec<u8>) -> (r: Response)
    ensures
        r.status_code == status,
        r.content_type == content_type,
        r.bytes == bytes,
        r.headers@.len() == 0,
{
    Response { content_type, bytes, status_code: status, headers: Vec::new() }
}

/// An empty `200 OK` `text/plain` response.
pub fn empty() -> (r: Response)
    ensures
        r.status_code == status_of(200),
        r.content_type.name@ == "text/plain"@,
        !r.content_type.is_binary,
        r.bytes@.len() == 0,
        r.headers@.len() == 0,
{
    Response {
        content_type: TEXT_PLAIN(),
        bytes: Vec::new(),
        status_code: ok_status(),
        headers: Vec::new(),
    }
}

/// A `302 Found` response pointing at `location`.
pub fn redirect(location: &str) -> (r: Response)
    ensures
        r.status_code == status_of(302),
        r.content_type.name@ == "text/plain"@,
        !r.content_type.is_binary,
        r.bytes@.len() == 0,
        header_pairs(r.headers@) == seq![("Location"@, location@)],
{
    let found = StatusCode::from_u16(302).unwrap();
    let headers = vec![(String::from_str("Location"), String::from_str(location))];
    assert(header_pairs(headers@) =~= seq![("Location"@, location@)]);
    Response { content_type: TEXT_PLAIN(), bytes: Vec::new(), status_code: found, headers }
}

} // verus!
