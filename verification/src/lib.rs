//! A tiny single-connection HTTP responder, verified.
//!
//! The library holds everything the responder decides and computes: detecting
//! the end of the header block, tokenizing and classifying the request,
//! reading off the declared content length, transforming a form body, and
//! building the HTTP response. The caller owns the sockets and hands the
//! library plain byte vectors.
pub mod text;
pub mod tokens;
pub mod scan;
pub mod digits;
pub mod headers;
pub mod response;
pub mod form;
pub mod handler;
