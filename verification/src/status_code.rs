//! HTTP status codes with their reason phrases.
use vstd::prelude::*;

use crate::number::{numeral, numeral_chars};
use crate::text::string_of;

verus! {

/// A status code and the reason phrase sent with it.
#[derive(Debug, Clone, Copy, PartialEq, Eq, Hash)]
pub struct StatusCode {
    pub code: u16,
    pub reason: &'static str,
}

/// The reason phrase of the registered status `code`, if it is one this
/// server knows.
pub open spec fn reason_phrase(code: u16) -> Option<&'static str> {
    match code {
        100 => Some("Continue"),
        101 => Some("Switching Protocols"),
        102 => Some("Processing"),
        103 => Some("Early Hints"),
        200 => Some("OK"),
        201 => Some("Created"),
        202 => Some("Accepted"),
        203 => Some("Non-Authoritative Information"),
        204 => Some("No Content"),
        205 => Some("Reset Content"),
        206 => Some("Partial Content"),
        207 => Some("Multi-Status"),
        208 => Some("Already Reported"),
        226 => Some("IM Used"),
        300 => Some("Multiple Choices"),
        301 => Some("Moved Permanently"),
        302 => Some("Found"),
        303 => Some("See Other"),
        304 => Some("Not Modified"),
        305 => Some("Use Proxy"),
        307 => Some("Temporary Redirect"),
        308 => Some("Permanent Redirect"),
        400 => Some("Bad Request"),
        401 => Some("Unauthorized"),
        402 => Some("Payment Required"),
        403 => Some("Forbidden"),
        404 => Some("Not Found"),
        405 => Some("Method Not Allowed"),
        406 => Some("Not Acceptable"),
        407 => Some("Proxy Authentication Required"),
        408 => Some("Request Timeout"),
        409 => Some("Conflict"),
        410 => Some("Gone"),
        411 => Some("Length Required"),
        412 => Some("Precondition Failed"),
        413 => Some("Payload Too Large"),
        414 => Some("URI Too Long"),
        415 => Some("Unsupported Media Type"),
        416 => Some("Range Not Satisfiable"),
        417 => Some("Expectation Failed"),
        418 => Some("I'm a teapot"),
        421 => Some("Misdirected Request"),
        422 => Some("Unprocessable Content"),
        423 => Some("Locked"),
        424 => Some("Failed Dependency"),
        425 => Some("Too Early"),
        426 => Some("Upgrade Required"),
        428 => Some("Precondition Required"),
        429 => Some("Too Many Requests"),
        431 => Some("Request Header Fields Too Large"),
        451 => Some("Unavailable For Legal Reasons"),
        500 => Some("Internal Server Error"),
        501 => Some("Not Implemented"),
        502 => Some("Bad Gateway"),
        503 => Some("Service Unavailable"),
        504 => Some("Gateway Timeout"),
        505 => Some("HTTP Version Not Supported"),
        506 => Some("Variant Also Negotiates"),
        507 => Some("Insufficient Storage"),
        508 => Some("Loop Detected"),
        510 => Some("Not Extended"),
        511 => Some("Network Authentication Required"),
        _ => None,
    }
}

/// What `StatusCode::from` makes of any number: the registered status, or
/// the number with the phrase `Unknown`.
pub open spec fn status_of(code: u16) -> StatusCode {
    match reason_phrase(code) {
        Some(r) => StatusCode { code, reason: r },
        None => StatusCode { code, reason: "Unknown" },
    }
}

impl StatusCode {
    /// A status with the given code and reason phrase.
    pub fn new(code: u16, reason: &'static str) -> (r: Self)
        ensures
            r.code == code,
            r.reason == reason,
    {
        StatusCode { code, reason }
    }

    /// The registered status with number `code`, if any.
    pub fn from_u16(code: u16) -> (r: Option<Self>)
        ensures
            match reason_phrase(code) {
                Some(p) => r == Some(StatusCode { code, reason: p }),
                None => r is None,
            },
    {
        match code {
        100 => Some(StatusCode { code: 100, reason: "Continue" }),
        101 => Some(StatusCode { code: 101, reason: "Switching Protocols" }),
        102 => Some(StatusCode { code: 102, reason: "Processing" }),
        103 => Some(StatusCode { code: 103, reason: "Early Hints" }),
        200 => Some(StatusCode { code: 200, reason: "OK" }),
        201 => Some(StatusCode { code: 201, reason: "Created" }),
        202 => Some(StatusCode { code: 202, reason: "Accepted" }),
        203 => Some(StatusCode { code: 203, reason: "Non-Authoritative Information" }),
        204 => Some(StatusCode { code: 204, reason: "No Content" }),
        205 => Some(StatusCode { code: 205, reason: "Reset Content" }),
        206 => Some(StatusCode { code: 206, reason: "Partial Content" }),
        207 => Some(StatusCode { code: 207, reason: "Multi-Status" }),
        208 => Some(StatusCode { code: 208, reason: "Already Reported" }),
        226 => Some(StatusCode { code: 226, reason: "IM Used" }),
        300 => Some(StatusCode { code: 300, reason: "Multiple Choices" }),
        301 => Some(StatusCode { code: 301, reason: "Moved Permanently" }),
        302 => Some(StatusCode { code: 302, reason: "Found" }),
        303 => Some(StatusCode { code: 303, reason: "See Other" }),
        304 => Some(StatusCode { code: 304, reason: "Not Modified" }),
        305 => Some(StatusCode { code: 305, reason: "Use Proxy" }),
        307 => Some(StatusCode { code: 307, reason: "Temporary Redirect" }),
        308 => Some(StatusCode { code: 308, reason: "Permanent Redirect" }),
        400 => Some(StatusCode { code: 400, reason: "Bad Request" }),
        401 => Some(StatusCode { code: 401, reason: "Unauthorized" }),
        402 => Some(StatusCode { code: 402, reason: "Payment Required" }),
        403 => Some(StatusCode { code: 403, reason: "Forbidden" }),
        404 => Some(StatusCode { code: 404, reason: "Not Found" }),
        405 => Some(StatusCode { code: 405, reason: "Method Not Allowed" }),
        406 => Some(StatusCode { code: 406, reason: "Not Acceptable" }),
        407 => Some(StatusCode { code: 407, reason: "Proxy Authentication Required" }),
        408 => Some(StatusCode { code: 408, reason: "Request Timeout" }),
        409 => Some(StatusCode { code: 409, reason: "Conflict" }),
        410 => Some(StatusCode { code: 410, reason: "Gone" }),
        411 => Some(StatusCode { code: 411, reason: "Length Required" }),
        412 => Some(StatusCode { code: 412, reason: "Precondition Failed" }),
        413 => Some(StatusCode { code: 413, reason: "Payload Too Large" }),
        414 => Some(StatusCode { code: 414, reason: "URI Too Long" }),
        415 => Some(StatusCode { code: 415, reason: "Unsupported Media Type" }),
        416 => Some(StatusCode { code: 416, reason: "Range Not Satisfiable" }),
        417 => Some(StatusCode { code: 417, reason: "Expectation Failed" }),
        418 => Some(StatusCode { code: 418, reason: "I'm a teapot" }),
        421 => Some(StatusCode { code: 421, reason: "Misdirected Request" }),
        422 => Some(StatusCode { code: 422, reason: "Unprocessable Content" }),
        423 => Some(StatusCode { code: 423, reason: "Locked" }),
        424 => Some(StatusCode { code: 424, reason: "Failed Dependency" }),
        425 => Some(StatusCode { code: 425, reason: "Too Early" }),
        426 => Some(StatusCode { code: 426, reason: "Upgrade Required" }),
        428 => Some(StatusCode { code: 428, reason: "Precondition Required" }),
        429 => Some(StatusCode { code: 429, reason: "Too Many Requests" }),
        431 => Some(StatusCode { code: 431, reason: "Request Header Fields Too Large" }),
        451 => Some(StatusCode { code: 451, reason: "Unavailable For Legal Reasons" }),
        500 => Some(StatusCode { code: 500, reason: "Internal Server Error" }),
        501 => Some(StatusCode { code: 501, reason: "Not Implemented" }),
        502 => Some(StatusCode { code: 502, reason: "Bad Gateway" }),
        503 => Some(StatusCode { code: 503, reason: "Service Unavailable" }),
        504 => Some(StatusCode { code: 504, reason: "Gateway Timeout" }),
        505 => Some(StatusCode { code: 505, reason: "HTTP Version Not Supported" }),
        506 => Some(StatusCode { code: 506, reason: "Variant Also Negotiates" }),
        507 => Some(StatusCode { code: 507, reason: "Insufficient Storage" }),
        508 => Some(StatusCode { code: 508, reason: "Loop Detected" }),
        510 => Some(StatusCode { code: 510, reason: "Not Extended" }),
        511 => Some(StatusCode { code: 511, reason: "Network Authentication Required" }),
            _ => None,
        }
    }
}

impl StatusCode {
    /// The status as written on a status line: code, space, reason.
    pub fn to_string(&self) -> (r: String)
        ensures
            r@ == numeral(self.code as nat, 10) + " "@ + self.reason@,
    {
        let digits = numeral_chars(self.code as usize, 10);
        let mut r = string_of(digits.as_slice());
        r.append(" ");
        r.append(self.reason);
        r
    }
}

impl From<u16> for StatusCode {
    /// The registered status `code`, or `code` with the phrase `Unknown`.
    fn from(code: u16) -> (r: StatusCode) {
        match StatusCode::from_u16(code) {
            Some(s) => s,
            None => StatusCode { code, reason: "Unknown" },
        }
    }
}

impl vstd::std_specs::convert::FromSpecImpl<u16> for StatusCode {
    open spec fn obeys_from_spec() -> bool {
        true
    }

    open spec fn from_spec(v: u16) -> StatusCode {
        status_of(v)
    }
}

/// The registered statuses, in order of their codes.
pub open spec fn registered_statuses() -> Seq<StatusCode> {
    seq![
        StatusCode { code: 100, reason: "Continue" },
        StatusCode { code: 101, reason: "Switching Protocols" },
        StatusCode { code: 102, reason: "Processing" },
        StatusCode { code: 103, reason: "Early Hints" },
        StatusCode { code: 200, reason: "OK" },
        StatusCode { code: 201, reason: "Created" },
        StatusCode { code: 202, reason: "Accepted" },
        StatusCode { code: 203, reason: "Non-Authoritative Information" },
        StatusCode { code: 204, reason: "No Content" },
        StatusCode { code: 205, reason: "Reset Content" },
        StatusCode { code: 206, reason: "Partial Content" },
        StatusCode { code: 207, reason: "Multi-Status" },
        StatusCode { code: 208, reason: "Already Reported" },
        StatusCode { code: 226, reason: "IM Used" },
        StatusCode { code: 300, reason: "Multiple Choices" },
        StatusCode { code: 301, reason: "Moved Permanently" },
        StatusCode { code: 302, reason: "Found" },
        StatusCode { code: 303, reason: "See Other" },
        StatusCode { code: 304, reason: "Not Modified" },
        StatusCode { code: 305, reason: "Use Proxy" },
        StatusCode { code: 307, reason: "Temporary Redirect" },
        StatusCode { code: 308, reason: "Permanent Redirect" },
        StatusCode { code: 400, reason: "Bad Request" },
        StatusCode { code: 401, reason: "Unauthorized" },
        StatusCode { code: 402, reason: "Payment Required" },
        StatusCode { code: 403, reason: "Forbidden" },
        StatusCode { code: 404, reason: "Not Found" },
        StatusCode { code: 405, reason: "Method Not Allowed" },
        StatusCode { code: 406, reason: "Not Acceptable" },
        StatusCode { code: 407, reason: "Proxy Authentication Required" },
        StatusCode { code: 408, reason: "Request Timeout" },
        StatusCode { code: 409, reason: "Conflict" },
        StatusCode { code: 410, reason: "Gone" },
        StatusCode { code: 411, reason: "Length Required" },
        StatusCode { code: 412, reason: "Precondition Failed" },
        StatusCode { code: 413, reason: "Payload Too Large" },
        StatusCode { code: 414, reason: "URI Too Long" },
        StatusCode { code: 415, reason: "Unsupported Media Type" },
        StatusCode { code: 416, reason: "Range Not Satisfiable" },
        StatusCode { code: 417, reason: "Expectation Failed" },
        StatusCode { code: 418, reason: "I'm a teapot" },
        StatusCode { code: 421, reason: "Misdirected Request" },
        StatusCode { code: 422, reason: "Unprocessable Content" },
        StatusCode { code: 423, reason: "Locked" },
        StatusCode { code: 424, reason: "Failed Dependency" },
        StatusCode { code: 425, reason: "Too Early" },
        StatusCode { code: 426, reason: "Upgrade Required" },
        StatusCode { code: 428, reason: "Precondition Required" },
        StatusCode { code: 429, reason: "Too Many Requests" },
        StatusCode { code: 431, reason: "Request Header Fields Too Large" },
        StatusCode { code: 451, reason: "Unavailable For Legal Reasons" },
        StatusCode { code: 500, reason: "Internal Server Error" },
        StatusCode { code: 501, reason: "Not Implemented" },
        StatusCode { code: 502, reason: "Bad Gateway" },
        StatusCode { code: 503, reason: "Service Unavailable" },
        StatusCode { code: 504, reason: "Gateway Timeout" },
        StatusCode { code: 505, reason: "HTTP Version Not Supported" },
        StatusCode { code: 506, reason: "Variant Also Negotiates" },
        StatusCode { code: 507, reason: "Insufficient Storage" },
        StatusCode { code: 508, reason: "Loop Detected" },
        StatusCode { code: 510, reason: "Not Extended" },
        StatusCode { code: 511, reason: "Network Authentication Required" },
    ]
}

/// `100 Continue`.
#[allow(non_snake_case)]
pub fn CONTINUE() -> (r: StatusCode)
    ensures
        r.code == 100,
        r.reason == "Continue",
{
    StatusCode { code: 100, reason: "Continue" }
}

/// `101 Switching Protocols`.
#[allow(non_snake_case)]
pub fn SWITCHING_PROTOCOLS() -> (r: StatusCode)
    ensures
        r.code == 101,
        r.reason == "Switching Protocols",
{
    StatusCode { code: 101, reason: "Switching Protocols" }
}

/// `102 Processing`.
#[allow(non_snake_case)]
pub fn PROCESSING() -> (r: StatusCode)
    ensures
        r.code == 102,
        r.reason == "Processing",
{
    StatusCode { code: 102, reason: "Processing" }
}

/// `103 Early Hints`.
#[allow(non_snake_case)]
pub fn EARLY_HINTS() -> (r: StatusCode)
    ensures
        r.code == 103,
        r.reason == "Early Hints",
{
    StatusCode { code: 103, reason: "Early Hints" }
}

/// `200 OK`.
#[allow(non_snake_case)]
pub fn OK() -> (r: StatusCode)
    ensures
        r.code == 200,
        r.reason == "OK",
{
    StatusCode { code: 200, reason: "OK" }
}

/// `201 Created`.
#[allow(non_snake_case)]
pub fn CREATED() -> (r: StatusCode)
    ensures
        r.code == 201,
        r.reason == "Created",
{
    StatusCode { code: 201, reason: "Created" }
}

/// `202 Accepted`.
#[allow(non_snake_case)]
pub fn ACCEPTED() -> (r: StatusCode)
    ensures
        r.code == 202,
        r.reason == "Accepted",
{
    StatusCode { code: 202, reason: "Accepted" }
}

/// `203 Non-Authoritative Information`.
#[allow(non_snake_case)]
pub fn NON_AUTHORITATIVE_INFORMATION() -> (r: StatusCode)
    ensures
        r.code == 203,
        r.reason == "Non-Authoritative Information",
{
    StatusCode { code: 203, reason: "Non-Authoritative Information" }
}

/// `204 No Content`.
#[allow(non_snake_case)]
pub fn NO_CONTENT() -> (r: StatusCode)
    ensures
        r.code == 204,
        r.reason == "No Content",
{
    StatusCode { code: 204, reason: "No Content" }
}

/// `205 Reset Content`.
#[allow(non_snake_case)]
pub fn RESET_CONTENT() -> (r: StatusCode)
    ensures
        r.code == 205,
        r.reason == "Reset Content",
{
    StatusCode { code: 205, reason: "Reset Content" }
}

/// `206 Partial Content`.
#[allow(non_snake_case)]
pub fn PARTIAL_CONTENT() -> (r: StatusCode)
    ensures
        r.code == 206,
        r.reason == "Partial Content",
{
    StatusCode { code: 206, reason: "Partial Content" }
}

/// `207 Multi-Status`.
#[allow(non_snake_case)]
pub fn MULTI_STATUS() -> (r: StatusCode)
    ensures
        r.code == 207,
        r.reason == "Multi-Status",
{
    StatusCode { code: 207, reason: "Multi-Status" }
}

/// `208 Already Reported`.
#[allow(non_snake_case)]
pub fn ALREADY_REPORTED() -> (r: StatusCode)
    ensures
        r.code == 208,
        r.reason == "Already Reported",
{
    StatusCode { code: 208, reason: "Already Reported" }
}

/// `226 IM Used`.
#[allow(non_snake_case)]
pub fn IM_USED() -> (r: StatusCode)
    ensures
        r.code == 226,
        r.reason == "IM Used",
{
    StatusCode { code: 226, reason: "IM Used" }
}

/// `300 Multiple Choices`.
#[allow(non_snake_case)]
pub fn MULTIPLE_CHOICES() -> (r: StatusCode)
    ensures
        r.code == 300,
        r.reason == "Multiple Choices",
{
    StatusCode { code: 300, reason: "Multiple Choices" }
}

/// `301 Moved Permanently`.
#[allow(non_snake_case)]
pub fn MOVED_PERMANENTLY() -> (r: StatusCode)
    ensures
        r.code == 301,
        r.reason == "Moved Permanently",
{
    StatusCode { code: 301, reason: "Moved Permanently" }
}

/// `302 Found`.
#[allow(non_snake_case)]
pub fn FOUND() -> (r: StatusCode)
    ensures
        r.code == 302,
        r.reason == "Found",
{
    StatusCode { code: 302, reason: "Found" }
}

/// `303 See Other`.
#[allow(non_snake_case)]
pub fn SEE_OTHER() -> (r: StatusCode)
    ensures
        r.code == 303,
        r.reason == "See Other",
{
    StatusCode { code: 303, reason: "See Other" }
}

/// `304 Not Modified`.
#[allow(non_snake_case)]
pub fn NOT_MODIFIED() -> (r: StatusCode)
    ensures
        r.code == 304,
        r.reason == "Not Modified",
{
    StatusCode { code: 304, reason: "Not Modified" }
}

/// `305 Use Proxy`.
#[allow(non_snake_case)]
pub fn USE_PROXY() -> (r: StatusCode)
    ensures
        r.code == 305,
        r.reason == "Use Proxy",
{
    StatusCode { code: 305, reason: "Use Proxy" }
}

/// `307 Temporary Redirect`.
#[allow(non_snake_case)]
pub fn TEMPORARY_REDIRECT() -> (r: StatusCode)
    ensures
        r.code == 307,
        r.reason == "Temporary Redirect",
{
    StatusCode { code: 307, reason: "Temporary Redirect" }
}

/// `308 Permanent Redirect`.
#[allow(non_snake_case)]
pub fn PERMANENT_REDIRECT() -> (r: StatusCode)
    ensures
        r.code == 308,
        r.reason == "Permanent Redirect",
{
    StatusCode { code: 308, reason: "Permanent Redirect" }
}

/// `400 Bad Request`.
#[allow(non_snake_case)]
pub fn BAD_REQUEST() -> (r: StatusCode)
    ensures
        r.code == 400,
        r.reason == "Bad Request",
{
    StatusCode { code: 400, reason: "Bad Request" }
}

/// `401 Unauthorized`.
#[allow(non_snake_case)]
pub fn UNAUTHORIZED() -> (r: StatusCode)
    ensures
        r.code == 401,
        r.reason == "Unauthorized",
{
    StatusCode { code: 401, reason: "Unauthorized" }
}

/// `402 Payment Required`.
#[allow(non_snake_case)]
pub fn PAYMENT_REQUIRED() -> (r: StatusCode)
    ensures
        r.code == 402,
        r.reason == "Payment Required",
{
    StatusCode { code: 402, reason: "Payment Required" }
}

/// `403 Forbidden`.
#[allow(non_snake_case)]
pub fn FORBIDDEN() -> (r: StatusCode)
    ensures
        r.code == 403,
        r.reason == "Forbidden",
{
    StatusCode { code: 403, reason: "Forbidden" }
}

/// `404 Not Found`.
#[allow(non_snake_case)]
pub fn NOT_FOUND() -> (r: StatusCode)
    ensures
        r.code == 404,
        r.reason == "Not Found",
{
    StatusCode { code: 404, reason: "Not Found" }
}

/// `405 Method Not Allowed`.
#[allow(non_snake_case)]
pub fn METHOD_NOT_ALLOWED() -> (r: StatusCode)
    ensures
        r.code == 405,
        r.reason == "Method Not Allowed",
{
    StatusCode { code: 405, reason: "Method Not Allowed" }
}

/// `406 Not Acceptable`.
#[allow(non_snake_case)]
pub fn NOT_ACCEPTABLE() -> (r: StatusCode)
    ensures
        r.code == 406,
        r.reason == "Not Acceptable",
{
    StatusCode { code: 406, reason: "Not Acceptable" }
}

/// `407 Proxy Authentication Required`.
#[allow(non_snake_case)]
pub fn PROXY_AUTHENTICATION_REQUIRED() -> (r: StatusCode)
    ensures
        r.code == 407,
        r.reason == "Proxy Authentication Required",
{
    StatusCode { code: 407, reason: "Proxy Authentication Required" }
}

/// `408 Request Timeout`.
#[allow(non_snake_case)]
pub fn REQUEST_TIMEOUT() -> (r: StatusCode)
    ensures
        r.code == 408,
        r.reason == "Request Timeout",
{
    StatusCode { code: 408, reason: "Request Timeout" }
}

/// `409 Conflict`.
#[allow(non_snake_case)]
pub fn CONFLICT() -> (r: StatusCode)
    ensures
        r.code == 409,
        r.reason == "Conflict",
{
    StatusCode { code: 409, reason: "Conflict" }
}

/// `410 Gone`.
#[allow(non_snake_case)]
pub fn GONE() -> (r: StatusCode)
    ensures
        r.code == 410,
        r.reason == "Gone",
{
    StatusCode { code: 410, reason: "Gone" }
}

/// `411 Length Required`.
#[allow(non_snake_case)]
pub fn LENGTH_REQUIRED() -> (r: StatusCode)
    ensures
        r.code == 411,
        r.reason == "Length Required",
{
    StatusCode { code: 411, reason: "Length Required" }
}

/// `412 Precondition Failed`.
#[allow(non_snake_case)]
pub fn PRECONDITION_FAILED() -> (r: StatusCode)
    ensures
        r.code == 412,
        r.reason == "Precondition Failed",
{
    StatusCode { code: 412, reason: "Precondition Failed" }
}

/// `413 Payload Too Large`.
#[allow(non_snake_case)]
pub fn PAYLOAD_TOO_LARGE() -> (r: StatusCode)
    ensures
        r.code == 413,
        r.reason == "Payload Too Large",
{
    StatusCode { code: 413, reason: "Payload Too Large" }
}

/// `414 URI Too Long`.
#[allow(non_snake_case)]
pub fn URI_TOO_LONG() -> (r: StatusCode)
    ensures
        r.code == 414,
        r.reason == "URI Too Long",
{
    StatusCode { code: 414, reason: "URI Too Long" }
}

/// `415 Unsupported Media Type`.
#[allow(non_snake_case)]
pub fn UNSUPPORTED_MEDIA_TYPE() -> (r: StatusCode)
    ensures
        r.code == 415,
        r.reason == "Unsupported Media Type",
{
    StatusCode { code: 415, reason: "Unsupported Media Type" }
}

/// `416 Range Not Satisfiable`.
#[allow(non_snake_case)]
pub fn RANGE_NOT_SATISFIABLE() -> (r: StatusCode)
    ensures
        r.code == 416,
        r.reason == "Range Not Satisfiable",
{
    StatusCode { code: 416, reason: "Range Not Satisfiable" }
}

/// `417 Expectation Failed`.
#[allow(non_snake_case)]
pub fn EXPECTATION_FAILED() -> (r: StatusCode)
    ensures
        r.code == 417,
        r.reason == "Expectation Failed",
{
    StatusCode { code: 417, reason: "Expectation Failed" }
}

/// `418 I'm a teapot`.
#[allow(non_snake_case)]
pub fn IM_A_TEAPOT() -> (r: StatusCode)
    ensures
        r.code == 418,
        r.reason == "I'm a teapot",
{
    StatusCode { code: 418, reason: "I'm a teapot" }
}

/// `421 Misdirected Request`.
#[allow(non_snake_case)]
pub fn MISDIRECTED_REQUEST() -> (r: StatusCode)
    ensures
        r.code == 421,
        r.reason == "Misdirected Request",
{
    StatusCode { code: 421, reason: "Misdirected Request" }
}

/// `422 Unprocessable Content`.
#[allow(non_snake_case)]
pub fn UNPROCESSABLE_CONTENT() -> (r: StatusCode)
    ensures
        r.code == 422,
        r.reason == "Unprocessable Content",
{
    StatusCode { code: 422, reason: "Unprocessable Content" }
}

/// `423 Locked`.
#[allow(non_snake_case)]
pub fn LOCKED() -> (r: StatusCode)
    ensures
        r.code == 423,
        r.reason == "Locked",
{
    StatusCode { code: 423, reason: "Locked" }
}

/// `424 Failed Dependency`.
#[allow(non_snake_case)]
pub fn FAILED_DEPENDENCY() -> (r: StatusCode)
    ensures
        r.code == 424,
        r.reason == "Failed Dependency",
{
    StatusCode { code: 424, reason: "Failed Dependency" }
}

/// `425 Too Early`.
#[allow(non_snake_case)]
pub fn TOO_EARLY() -> (r: StatusCode)
    ensures
        r.code == 425,
        r.reason == "Too Early",
{
    StatusCode { code: 425, reason: "Too Early" }
}

/// `426 Upgrade Required`.
#[allow(non_snake_case)]
pub fn UPGRADE_REQUIRED() -> (r: StatusCode)
    ensures
        r.code == 426,
        r.reason == "Upgrade Required",
{
    StatusCode { code: 426, reason: "Upgrade Required" }
}

/// `428 Precondition Required`.
#[allow(non_snake_case)]
pub fn PRECONDITION_REQUIRED() -> (r: StatusCode)
    ensures
        r.code == 428,
        r.reason == "Precondition Required",
{
    StatusCode { code: 428, reason: "Precondition Required" }
}

/// `429 Too Many Requests`.
#[allow(non_snake_case)]
pub fn TOO_MANY_REQUESTS() -> (r: StatusCode)
    ensures
        r.code == 429,
        r.reason == "Too Many Requests",
{
    StatusCode { code: 429, reason: "Too Many Requests" }
}

/// `431 Request Header Fields Too Large`.
#[allow(non_snake_case)]
pub fn REQUEST_HEADER_FIELDS_TOO_LARGE() -> (r: StatusCode)
    ensures
        r.code == 431,
        r.reason == "Request Header Fields Too Large",
{
    StatusCode { code: 431, reason: "Request Header Fields Too Large" }
}

/// `451 Unavailable For Legal Reasons`.
#[allow(non_snake_case)]
pub fn UNAVAILABLE_FOR_LEGAL_REASONS() -> (r: StatusCode)
    ensures
        r.code == 451,
        r.reason == "Unavailable For Legal Reasons",
{
    StatusCode { code: 451, reason: "Unavailable For Legal Reasons" }
}

/// `500 Internal Server Error`.
#[allow(non_snake_case)]
pub fn INTERNAL_SERVER_ERROR() -> (r: StatusCode)
    ensures
        r.code == 500,
        r.reason == "Internal Server Error",
{
    StatusCode { code: 500, reason: "Internal Server Error" }
}

/// `501 Not Implemented`.
#[allow(non_snake_case)]
pub fn NOT_IMPLEMENTED() -> (r: StatusCode)
    ensures
        r.code == 501,
        r.reason == "Not Implemented",
{
    StatusCode { code: 501, reason: "Not Implemented" }
}

/// `502 Bad Gateway`.
#[allow(non_snake_case)]
pub fn BAD_GATEWAY() -> (r: StatusCode)
    ensures
        r.code == 502,
        r.reason == "Bad Gateway",
{
    StatusCode { code: 502, reason: "Bad Gateway" }
}

/// `503 Service Unavailable`.
#[allow(non_snake_case)]
pub fn SERVICE_UNAVAILABLE() -> (r: StatusCode)
    ensures
        r.code == 503,
        r.reason == "Service Unavailable",
{
    StatusCode { code: 503, reason: "Service Unavailable" }
}

/// `504 Gateway Timeout`.
#[allow(non_snake_case)]
pub fn GATEWAY_TIMEOUT() -> (r: StatusCode)
    ensures
        r.code == 504,
        r.reason == "Gateway Timeout",
{
    StatusCode { code: 504, reason: "Gateway Timeout" }
}

/// `505 HTTP Version Not Supported`.
#[allow(non_snake_case)]
pub fn HTTP_VERSION_NOT_SUPPORTED() -> (r: StatusCode)
    ensures
        r.code == 505,
        r.reason == "HTTP Version Not Supported",
{
    StatusCode { code: 505, reason: "HTTP Version Not Supported" }
}

/// `506 Variant Also Negotiates`.
#[allow(non_snake_case)]
pub fn VARIANT_ALSO_NEGOTIATES() -> (r: StatusCode)
    ensures
        r.code == 506,
        r.reason == "Variant Also Negotiates",
{
    StatusCode { code: 506, reason: "Variant Also Negotiates" }
}

/// `507 Insufficient Storage`.
#[allow(non_snake_case)]
pub fn INSUFFICIENT_STORAGE() -> (r: StatusCode)
    ensures
        r.code == 507,
        r.reason == "Insufficient Storage",
{
    StatusCode { code: 507, reason: "Insufficient Storage" }
}

/// `508 Loop Detected`.
#[allow(non_snake_case)]
pub fn LOOP_DETECTED() -> (r: StatusCode)
    ensures
        r.code == 508,
        r.reason == "Loop Detected",
{
    StatusCode { code: 508, reason: "Loop Detected" }
}

/// `510 Not Extended`.
#[allow(non_snake_case)]
pub fn NOT_EXTENDED() -> (r: StatusCode)
    ensures
        r.code == 510,
        r.reason == "Not Extended",
{
    StatusCode { code: 510, reason: "Not Extended" }
}

/// `511 Network Authentication Required`.
#[allow(non_snake_case)]
pub fn NETWORK_AUTHENTICATION_REQUIRED() -> (r: StatusCode)
    ensures
        r.code == 511,
        r.reason == "Network Authentication Required",
{
    StatusCode { code: 511, reason: "Network Authentication Required" }
}

/// Every registered status, in order of their codes.
#[allow(non_snake_case)]
pub fn ALL() -> (r: Vec<StatusCode>)
    ensures
        r@ == registered_statuses(),
{
    let v = vec![
        StatusCode { code: 100, reason: "Continue" },
        StatusCode { code: 101, reason: "Switching Protocols" },
        StatusCode { code: 102, reason: "Processing" },
        StatusCode { code: 103, reason: "Early Hints" },
        StatusCode { code: 200, reason: "OK" },
        StatusCode { code: 201, reason: "Created" },
        StatusCode { code: 202, reason: "Accepted" },
        StatusCode { code: 203, reason: "Non-Authoritative Information" },
        StatusCode { code: 204, reason: "No Content" },
        StatusCode { code: 205, reason: "Reset Content" },
        StatusCode { code: 206, reason: "Partial Content" },
        StatusCode { code: 207, reason: "Multi-Status" },
        StatusCode { code: 208, reason: "Already Reported" },
        StatusCode { code: 226, reason: "IM Used" },
        StatusCode { code: 300, reason: "Multiple Choices" },
        StatusCode { code: 301, reason: "Moved Permanently" },
        StatusCode { code: 302, reason: "Found" },
        StatusCode { code: 303, reason: "See Other" },
        StatusCode { code: 304, reason: "Not Modified" },
        StatusCode { code: 305, reason: "Use Proxy" },
        StatusCode { code: 307, reason: "Temporary Redirect" },
        StatusCode { code: 308, reason: "Permanent Redirect" },
        StatusCode { code: 400, reason: "Bad Request" },
        StatusCode { code: 401, reason: "Unauthorized" },
        StatusCode { code: 402, reason: "Payment Required" },
        StatusCode { code: 403, reason: "Forbidden" },
        StatusCode { code: 404, reason: "Not Found" },
        StatusCode { code: 405, reason: "Method Not Allowed" },
        StatusCode { code: 406, reason: "Not Acceptable" },
        StatusCode { code: 407, reason: "Proxy Authentication Required" },
        StatusCode { code: 408, reason: "Request Timeout" },
        StatusCode { code: 409, reason: "Conflict" },
        StatusCode { code: 410, reason: "Gone" },
        StatusCode { code: 411, reason: "Length Required" },
        StatusCode { code: 412, reason: "Precondition Failed" },
        StatusCode { code: 413, reason: "Payload Too Large" },
        StatusCode { code: 414, reason: "URI Too Long" },
        StatusCode { code: 415, reason: "Unsupported Media Type" },
        StatusCode { code: 416, reason: "Range Not Satisfiable" },
        StatusCode { code: 417, reason: "Expectation Failed" },
        StatusCode { code: 418, reason: "I'm a teapot" },
        StatusCode { code: 421, reason: "Misdirected Request" },
        StatusCode { code: 422, reason: "Unprocessable Content" },
        StatusCode { code: 423, reason: "Locked" },
        StatusCode { code: 424, reason: "Failed Dependency" },
        StatusCode { code: 425, reason: "Too Early" },
        StatusCode { code: 426, reason: "Upgrade Required" },
        StatusCode { code: 428, reason: "Precondition Required" },
        StatusCode { code: 429, reason: "Too Many Requests" },
        StatusCode { code: 431, reason: "Request Header Fields Too Large" },
        StatusCode { code: 451, reason: "Unavailable For Legal Reasons" },
        StatusCode { code: 500, reason: "Internal Server Error" },
        StatusCode { code: 501, reason: "Not Implemented" },
        StatusCode { code: 502, reason: "Bad Gateway" },
        StatusCode { code: 503, reason: "Service Unavailable" },
        StatusCode { code: 504, reason: "Gateway Timeout" },
        StatusCode { code: 505, reason: "HTTP Version Not Supported" },
        StatusCode { code: 506, reason: "Variant Also Negotiates" },
        StatusCode { code: 507, reason: "Insufficient Storage" },
        StatusCode { code: 508, reason: "Loop Detected" },
        StatusCode { code: 510, reason: "Not Extended" },
        StatusCode { code: 511, reason: "Network Authentication Required" },
    ];
    assert(v@ =~= registered_statuses());
    v
}

/// Every registered status is the one `from_u16` gives for its code.
pub proof fn law_registered_statuses_known(i: int)
    requires
        0 <= i < registered_statuses().len(),
    ensures
        reason_phrase(registered_statuses()[i].code) == Some(registered_statuses()[i].reason),
        status_of(registered_statuses()[i].code) == registered_statuses()[i],
{
}

} // verus!
