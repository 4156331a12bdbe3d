//! A small verified web library: it serves an HTML form and computes the
//! greatest common divisor of the numbers submitted through that form.
//!
//! The crate holds the request-routing table, the two handlers and the
//! arithmetic; the surrounding binary only moves bytes between a socket and
//! these functions.

pub mod decimal;
pub mod form;
pub mod gcd;
pub mod handler;
pub mod http;
pub mod text;
