//! A minimal HTTP/1.1 server core: request parsing, routing and response
//! building over raw bytes, with every function verified against a
//! mathematical model of the protocol.
//!
//! The library never touches a socket or a file. It turns the bytes of one
//! request into a [`server::Step`]: either a finished response, or an
//! instruction to read or write one file of the serving directory, after
//! which the caller hands the outcome back to obtain the response.

pub mod bytes;
pub mod config;
pub mod error;
pub mod header;
pub mod laws;
pub mod request;
pub mod response;
pub mod route;
pub mod server;
pub mod wire;
