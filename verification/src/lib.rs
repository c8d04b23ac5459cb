//! An HTTP/1.x server library: request parsing, routing, response building.
use vstd::prelude::*;

pub mod text;
pub mod utils;
pub mod http_method;
pub mod http_version;
pub mod map;
pub mod middleware;
pub mod mime_type;
pub mod number;
pub mod reading;
pub mod request;
pub mod response;
pub mod routing;
pub mod server;
pub mod status_code;

verus! {

} // verus!
