//! The core of a minimal HTTP/1.1 server, verified.
//!
//! A raw request arrives as text; [`request`] parses it into a method,
//! path segments, headers and an optional body. [`router`] maps the method
//! and segments to one of a fixed set of routes, first match wins.
//! [`handler`] dispatches a parsed request to its route's handler, which
//! either finishes a response or names the one filesystem access the
//! caller must perform and hand back. [`response`] serializes a response
//! to its exact wire text. [`strutil`] holds the verified string
//! primitives the rest builds on.
//!
//! The library does no I/O itself: the caller owns the connection and the
//! filesystem, reads the request text, performs the one file read or
//! write dispatch asks for, and writes the serialized response back.

pub mod handler;
pub mod request;
pub mod response;
pub mod router;
pub mod strutil;
