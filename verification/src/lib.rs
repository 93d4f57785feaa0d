//! A verified parser for a single HTTP-style request line.
//!
//! The line `GET /home/ HTTP/1.1` is taken apart into a method, a target
//! URL, a protocol name and a protocol version.  Primitive token matchers
//! consume a prefix of the input and hand back the unconsumed remainder;
//! field parsers compose them; `run_parser` chains the four fields in a
//! fixed order and either assembles a [`request::Request`] or reports the
//! first failure together with the fragment it choked on.

pub mod failure;
pub mod fields;
pub mod laws;
pub mod request;
pub mod token;
