//! HTTP request methods.
use vstd::prelude::*;

use crate::text::str_eq;

verus! {

/// An HTTP request method; `ALL` stands for "any method" in route tables.
#[derive(Debug, PartialEq, Eq, Clone, Copy, Structural)]
pub enum HttpMethod {
    ALL,
    GET,
    POST,
    PUT,
    DELETE,
    OPTIONS,
    HEAD,
    CONNECT,
    TRACE,
    PATCH,
    UPDATE,
}

/// The method whose token is `s`, if any. `ALL` has no token.
pub open spec fn method_of_token(s: Seq<char>) -> Option<HttpMethod> {
    if s == "GET"@ {
        Some(HttpMethod::GET)
    } else if s == "POST"@ {
        Some(HttpMethod::POST)
    } else if s == "PUT"@ {
        Some(HttpMethod::PUT)
    } else if s == "DELETE"@ {
        Some(HttpMethod::DELETE)
    } else if s == "OPTIONS"@ {
        Some(HttpMethod::OPTIONS)
    } else if s == "HEAD"@ {
        Some(HttpMethod::HEAD)
    } else if s == "CONNECT"@ {
        Some(HttpMethod::CONNECT)
    } else if s == "TRACE"@ {
        Some(HttpMethod::TRACE)
    } else if s == "PATCH"@ {
        Some(HttpMethod::PATCH)
    } else if s == "UPDATE"@ {
        Some(HttpMethod::UPDATE)
    } else {
        None
    }
}

/// Parses a method token (case-sensitive, as sent on the request line).
pub fn parse_method(method: &str) -> (r: Option<HttpMethod>)
    ensures
        r == method_of_token(method@),
{
    if str_eq(method, "GET") {
        Some(HttpMethod::GET)
    } else if str_eq(method, "POST") {
        Some(HttpMethod::POST)
    } else if str_eq(method, "PUT") {
        Some(HttpMethod::PUT)
    } else if str_eq(method, "DELETE") {
        Some(HttpMethod::DELETE)
    } else if str_eq(method, "OPTIONS") {
        Some(HttpMethod::OPTIONS)
    } else if str_eq(method, "HEAD") {
        Some(HttpMethod::HEAD)
    } else if str_eq(method, "CONNECT") {
        Some(HttpMethod::CONNECT)
    } else if str_eq(method, "TRACE") {
        Some(HttpMethod::TRACE)
    } else if str_eq(method, "PATCH") {
        Some(HttpMethod::PATCH)
    } else if str_eq(method, "UPDATE") {
        Some(HttpMethod::UPDATE)
    } else {
        None
    }
}

} // verus!
