//! HTTP protocol versions.
use vstd::prelude::*;

use crate::text::str_eq;

verus! {

/// The protocol versions this server speaks.
#[non_exhaustive]
#[derive(Debug, PartialEq, Eq, Clone, Copy, Structural)]
pub enum HttpVersion {
    Http1_0,
    Http1_1,
}

/// The version named by `s` on a request line, if any.
pub open spec fn version_of_token(s: Seq<char>) -> Option<HttpVersion> {
    if s == "HTTP/1.0"@ {
        Some(HttpVersion::Http1_0)
    } else if s == "HTTP/1.1"@ {
        Some(HttpVersion::Http1_1)
    } else {
        None
    }
}

/// Parses the version token of a request line.
pub fn parse_http_version(input: &str) -> (r: Option<HttpVersion>)
    ensures
        r == version_of_token(input@),
{
    if str_eq(input, "HTTP/1.0") {
        Some(HttpVersion::Http1_0)
    } else if str_eq(input, "HTTP/1.1") {
        Some(HttpVersion::Http1_1)
    } else {
        None
    }
}

} // verus!
