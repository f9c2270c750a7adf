//! A single-request HTTP bridge: validation of the outgoing request, assembly of
//! a normalized response descriptor, and the mapping of failures to errors.

pub mod error;
pub mod headers;
pub mod method;
pub mod request;
pub mod response;
