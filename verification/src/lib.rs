//! Verified core of a development-time HTTP bridge that lets an agent drive
//! a web view: request parsing, routing, script building and response framing.

pub mod text;
pub mod numbers;
pub mod unicode;
pub mod json;
pub mod percent;
pub mod http;
pub mod bridge;
pub mod script;
pub mod routes;
pub mod replies;
