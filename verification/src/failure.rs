//! Failure kinds shared by every stage of the pipeline, and the failure
//! value that the whole-line parser hands to its caller.

use vstd::prelude::*;
use vstd::string::*;

verus! {

/// The reason a matcher or a field parser turned its input down.
///
/// The token matchers report the first three kinds; the field parsers
/// translate them into the structural kinds below so that a caller sees
/// which stage of the request line was at fault.
#[derive(Clone, Copy, Debug, PartialEq, Eq, Structural)]
pub enum FailKind {
    /// An expected literal was absent at the current position.
    LiteralMismatch,
    /// A scan for a required delimiter exhausted the remaining input.
    DelimiterNotFound,
    /// The version field does not start with a numeric literal.
    NotANumber,
    /// The method token matched none of the enumerated methods.
    UnknownMethod,
    /// A structural separator (space or slash) was missing.
    MissingSeparator,
    /// The target URL was not terminated by a space.
    UnterminatedTarget,
    /// The protocol name was not terminated by a slash.
    UnterminatedProtocol,
}

/// The short name a failure kind is rendered as in a diagnostic message.
pub open spec fn kind_text(k: FailKind) -> Seq<char> {
    match k {
        FailKind::LiteralMismatch => "literal mismatch"@,
        FailKind::DelimiterNotFound => "delimiter not found"@,
        FailKind::NotANumber => "not a number"@,
        FailKind::UnknownMethod => "unknown method"@,
        FailKind::MissingSeparator => "missing separator"@,
        FailKind::UnterminatedTarget => "unterminated target"@,
        FailKind::UnterminatedProtocol => "unterminated protocol"@,
    }
}

/// The rendering of a failure kind, character for character the text that
/// [`kind_text`] prescribes.
pub fn kind_name(k: FailKind) -> (r: &'static str)
    ensures
        r@ == kind_text(k),
{
    match k {
        FailKind::LiteralMismatch => "literal mismatch",
        FailKind::DelimiterNotFound => "delimiter not found",
        FailKind::NotANumber => "not a number",
        FailKind::UnknownMethod => "unknown method",
        FailKind::MissingSeparator => "missing separator",
        FailKind::UnterminatedTarget => "unterminated target",
        FailKind::UnterminatedProtocol => "unterminated protocol",
    }
}

/// A failed parse: which stage failed and the unconsumed input fragment at
/// the point of failure.  No partial request accompanies it.
#[derive(Debug, Clone, PartialEq, Eq)]
pub struct ParseFailure {
    pub kind: FailKind,
    pub fragment: String,
}

/// The mathematical content of a [`ParseFailure`].
pub ghost struct FailureView {
    pub kind: FailKind,
    pub fragment: Seq<char>,
}

impl View for ParseFailure {
    type V = FailureView;

    open spec fn view(&self) -> FailureView {
        FailureView { kind: self.kind, fragment: self.fragment@ }
    }
}

impl ParseFailure {
    /// A human-readable description of the failure, combining the failing
    /// stage with the offending fragment.
    pub fn message(&self) -> (r: String)
        ensures
            r@ == kind_text(self.kind) + ": "@ + self.fragment@,
    {
        let mut s = kind_name(self.kind).to_owned();
        s.append(": ");
        s.append(self.fragment.as_str());
        s
    }
}

} // verus!
