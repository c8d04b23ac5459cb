//! Middleware registration data: where a middleware applies and what it
//! decides.
use vstd::prelude::*;

use crate::response::Response;
use std::borrow::Cow;

verus! {

/// Which request paths a middleware applies to.
pub enum PathParameter {
    Exact(String),
    Begin(String),
    End(String),
    Contains(String),
    Wildcard,
}

/// When a middleware runs, and on which paths.
pub enum MiddlewareType {
    PreRequest(PathParameter),
    PostRequest(PathParameter),
    ErrorHandler(PathParameter),
}

/// What a middleware decides.
pub enum MiddlewareResult<'a> {
    NextMiddleware,
    SkipMiddlewares,
    SendResponseAndStopProcessing(Cow<'a, Response>),
}

} // verus!
