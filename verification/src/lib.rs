//! A small HTTP/1.1 server core: request parsing, response serialisation and
//! routing, each with a machine-checked contract.

pub mod config;
pub mod grammar;
pub mod headers;
pub mod http_response;
pub mod parser;
pub mod request;
pub mod roundtrip;
pub mod router;
pub mod scan;
pub mod status;
pub mod text;
