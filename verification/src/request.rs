//! The request record and the whole-line parser.
//!
//! [`run_parser`] is the sole entry point of the pipeline: it sequences
//! the four field parsers in fixed order, threading the remainder of each
//! into the next and short-circuiting on the first failure, then either
//! assembles an owned [`Request`] or reports that failure unchanged.

use vstd::prelude::*;
use vstd::string::*;

use crate::failure::{FailKind, FailureView, ParseFailure};
use crate::fields::{
    parse_method, parse_protocol_name, parse_target, parse_version, spec_parse_method,
    spec_parse_protocol_name, spec_parse_target, spec_parse_version,
};

verus! {

/// The assembled request line.
///
/// `version` holds the exact decimal lexeme the version field was written
/// as (for `HTTP/1.1` it is `1.1`); the grammar guarantees it is a valid
/// floating-point literal, so a caller that wants a number converts it.
#[derive(Debug, Clone, PartialEq, Eq)]
pub struct Request {
    pub method: String,
    pub url: String,
    pub protocol: String,
    pub version: String,
}

/// The mathematical content of a [`Request`]: its four fields as
/// character sequences.
pub ghost struct RequestView {
    pub method: Seq<char>,
    pub url: Seq<char>,
    pub protocol: Seq<char>,
    pub version: Seq<char>,
}

impl View for Request {
    type V = RequestView;

    open spec fn view(&self) -> RequestView {
        RequestView {
            method: self.method@,
            url: self.url@,
            protocol: self.protocol@,
            version: self.version@,
        }
    }
}

/// What [`run_parser`] computes over the text of its input: the four
/// field parsers applied in fixed order, each to the remainder left by
/// the one before it, stopping at the first failure.  Whatever remains
/// after the version (a line terminator, say) is ignored.
pub open spec fn spec_run(s: Seq<char>) -> Result<RequestView, FailureView> {
    match spec_parse_method(s) {
        Err((k, frag)) => Err(FailureView { kind: k, fragment: frag }),
        Ok((method, rest1)) => match spec_parse_target(rest1) {
            Err((k, frag)) => Err(FailureView { kind: k, fragment: frag }),
            Ok((url, rest2)) => match spec_parse_protocol_name(rest2) {
                Err((k, frag)) => Err(FailureView { kind: k, fragment: frag }),
                Ok((protocol, rest3)) => match spec_parse_version(rest3) {
                    Err((k, frag)) => Err(FailureView { kind: k, fragment: frag }),
                    Ok((version, _)) => Ok(RequestView { method, url, protocol, version }),
                },
            },
        },
    }
}

/// The view of a whole-line parse result.
pub open spec fn run_result_view(r: Result<Request, ParseFailure>) -> Result<
    RequestView,
    FailureView,
> {
    match r {
        Ok(req) => Ok(req@),
        Err(f) => Err(f@),
    }
}

/// Parses one request line: method, target URL, protocol name and
/// protocol version, in that order.  On success the four extracted values
/// are copied into an owned [`Request`]; trailing characters after the
/// version are never inspected.  On failure the first failing stage's
/// kind and offending fragment come back, and no request is built.
pub fn run_parser(input: &str) -> (r: Result<Request, ParseFailure>)
    ensures
        run_result_view(r) == spec_run(input@),
{
    let (method, rest1) = match parse_method(input) {
        Ok(pair) => pair,
        Err((kind, fragment)) => {
            return Err(ParseFailure { kind, fragment: fragment.to_owned() });
        },
    };
    let (url, rest2) = match parse_target(rest1) {
        Ok(pair) => pair,
        Err((kind, fragment)) => {
            return Err(ParseFailure { kind, fragment: fragment.to_owned() });
        },
    };
    let (protocol, rest3) = match parse_protocol_name(rest2) {
        Ok(pair) => pair,
        Err((kind, fragment)) => {
            return Err(ParseFailure { kind, fragment: fragment.to_owned() });
        },
    };
    let (version, _) = match parse_version(rest3) {
        Ok(pair) => pair,
        Err((kind, fragment)) => {
            return Err(ParseFailure { kind, fragment: fragment.to_owned() });
        },
    };
    Ok(
        Request {
            method: method.to_owned(),
            url: url.to_owned(),
            protocol: protocol.to_owned(),
            version: version.to_owned(),
        },
    )
}

} // verus!
