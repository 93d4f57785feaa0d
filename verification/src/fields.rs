//! Field-level parsers for the four fields of a request line.
//!
//! Each parser wraps the token matchers of [`crate::token`] with the
//! separator the grammar puts in front of its field: one literal space
//! before the target and the protocol name, one literal `/` before the
//! version.  On failure each parser reports the structural kind of the
//! fault together with the unconsumed fragment it was looking at.

use vstd::prelude::*;

use crate::failure::FailKind;
use crate::token::{
    float_lexeme_len, match_float, match_literal, spec_take_until, take_until,
};

verus! {

/// The closed set of supported request methods.
#[derive(Clone, Copy, Debug, PartialEq, Eq, Structural)]
pub enum Method {
    GET,
    POST,
}

/// The exact textual rendering of a method, used both for matching and for
/// display.
pub open spec fn method_text(m: Method) -> Seq<char> {
    match m {
        Method::GET => seq!['G', 'E', 'T'],
        Method::POST => seq!['P', 'O', 'S', 'T'],
    }
}

impl Method {
    /// The uppercase literal this method is written as.
    pub fn literal(&self) -> (r: &'static str)
        ensures
            r@ == method_text(*self),
    {
        match self {
            Method::GET => {
                let s = "GET";
                proof {
                    reveal_strlit("GET");
                    assert(s@ =~= seq!['G', 'E', 'T']);
                }
                s
            },
            Method::POST => {
                let s = "POST";
                proof {
                    reveal_strlit("POST");
                    assert(s@ =~= seq!['P', 'O', 'S', 'T']);
                }
                s
            },
        }
    }
}

/// `s` starts with a single literal space.
pub open spec fn leading_space(s: Seq<char>) -> bool {
    s.len() > 0 && s[0] == ' '
}

/// `s` starts with a single literal slash.
pub open spec fn leading_slash(s: Seq<char>) -> bool {
    s.len() > 0 && s[0] == '/'
}

/// The outcome every field parser is held to: the extracted value and the
/// remainder, or the kind of the fault and the fragment it was found in.
pub type FieldOutcome = Result<(Seq<char>, Seq<char>), (FailKind, Seq<char>)>;

/// The view of a field parser's result.
pub open spec fn field_result_view<'a>(
    r: Result<(&'a str, &'a str), (FailKind, &'a str)>,
) -> FieldOutcome {
    match r {
        Ok((value, rest)) => Ok((value@, rest@)),
        Err((k, frag)) => Err((k, frag@)),
    }
}

/// What [`parse_method`] recognizes: the literal `GET`, tried first, then
/// the literal `POST`; anything else is an unknown method.
pub open spec fn spec_parse_method(s: Seq<char>) -> FieldOutcome {
    if method_text(Method::GET).is_prefix_of(s) {
        Ok((method_text(Method::GET), s.skip(3)))
    } else if method_text(Method::POST).is_prefix_of(s) {
        Ok((method_text(Method::POST), s.skip(4)))
    } else {
        Err((FailKind::UnknownMethod, s))
    }
}

/// Tries each supported method's literal in the fixed order `GET`, `POST`
/// and returns the matched literal with the remainder.  Fails with
/// `UnknownMethod` when neither literal starts the input.
pub fn parse_method<'a>(input: &'a str) -> (r: Result<(&'a str, &'a str), (FailKind, &'a str)>)
    ensures
        field_result_view(r) == spec_parse_method(input@),
{
    if let Ok((consumed, rest)) = match_literal(Method::GET.literal(), input) {
        return Ok((consumed, rest));
    }
    if let Ok((consumed, rest)) = match_literal(Method::POST.literal(), input) {
        return Ok((consumed, rest));
    }
    Err((FailKind::UnknownMethod, input))
}

/// Consumes exactly one literal space, the separator that precedes the
/// target and the protocol fields.
pub fn parse_whitespace<'a>(input: &'a str) -> (r: Result<(&'a str, &'a str), FailKind>)
    ensures
        r is Ok <==> leading_space(input@),
        r matches Ok((consumed, rest)) ==> consumed@ == seq![' '] && rest@ == input@.skip(1),
        r matches Err(k) ==> k == FailKind::LiteralMismatch,
{
    let r = match_literal(" ", input);
    proof {
        reveal_strlit(" ");
        assert(" "@ =~= seq![' ']);
        if " "@.is_prefix_of(input@) {
            assert(input@[0] == input@.subrange(0, 1)[0]);
        }
        if leading_space(input@) {
            assert(" "@ =~= input@.subrange(0, 1));
        }
    }
    r
}

/// What [`parse_target`] extracts: after one leading space, everything up
/// to but not including the next space.
pub open spec fn spec_parse_target(s: Seq<char>) -> FieldOutcome {
    if !leading_space(s) {
        Err((FailKind::MissingSeparator, s))
    } else {
        match spec_take_until(' ', s.skip(1)) {
            Some((value, rest)) => Ok((value, rest)),
            None => Err((FailKind::UnterminatedTarget, s.skip(1))),
        }
    }
}

/// Requires one leading space, then extracts the target URL: everything up
/// to the next space, which is left unconsumed.  An empty target is valid.
/// Fails with `MissingSeparator` when the space is absent and with
/// `UnterminatedTarget` when no further space follows the target.
pub fn parse_target<'a>(input: &'a str) -> (r: Result<(&'a str, &'a str), (FailKind, &'a str)>)
    ensures
        field_result_view(r) == spec_parse_target(input@),
{
    match parse_whitespace(input) {
        Ok((_, after_space)) => match take_until(' ', after_space) {
            Ok((value, rest)) => Ok((value, rest)),
            Err(_) => Err((FailKind::UnterminatedTarget, after_space)),
        },
        Err(_) => Err((FailKind::MissingSeparator, input)),
    }
}

/// What [`parse_protocol_name`] extracts: after one leading space,
/// everything up to but not including the next slash.
pub open spec fn spec_parse_protocol_name(s: Seq<char>) -> FieldOutcome {
    if !leading_space(s) {
        Err((FailKind::MissingSeparator, s))
    } else {
        match spec_take_until('/', s.skip(1)) {
            Some((value, rest)) => Ok((value, rest)),
            None => Err((FailKind::UnterminatedProtocol, s.skip(1))),
        }
    }
}

/// Requires one leading space, then extracts the protocol name: everything
/// up to the next slash, which is left unconsumed.  Fails with
/// `MissingSeparator` when the space is absent and with
/// `UnterminatedProtocol` when no slash follows the name.
pub fn parse_protocol_name<'a>(input: &'a str) -> (r: Result<
    (&'a str, &'a str),
    (FailKind, &'a str),
>)
    ensures
        field_result_view(r) == spec_parse_protocol_name(input@),
{
    match parse_whitespace(input) {
        Ok((_, after_space)) => match take_until('/', after_space) {
            Ok((value, rest)) => Ok((value, rest)),
            Err(_) => Err((FailKind::UnterminatedProtocol, after_space)),
        },
        Err(_) => Err((FailKind::MissingSeparator, input)),
    }
}

/// What [`parse_version`] extracts: after one leading slash, the maximal
/// decimal floating-point lexeme.
pub open spec fn spec_parse_version(s: Seq<char>) -> FieldOutcome {
    if !leading_slash(s) {
        Err((FailKind::MissingSeparator, s))
    } else {
        let t = s.skip(1);
        if float_lexeme_len(t) > 0 {
            Ok((t.take(float_lexeme_len(t) as int), t.skip(float_lexeme_len(t) as int)))
        } else {
            Err((FailKind::NotANumber, t))
        }
    }
}

/// Requires one leading slash, then extracts the version as the maximal
/// decimal floating-point lexeme that follows it.  Fails with
/// `MissingSeparator` when the slash is absent and with `NotANumber` when
/// no numeric literal follows it.
pub fn parse_version<'a>(input: &'a str) -> (r: Result<(&'a str, &'a str), (FailKind, &'a str)>)
    ensures
        field_result_view(r) == spec_parse_version(input@),
{
    let slash = match_literal("/", input);
    proof {
        reveal_strlit("/");
        assert("/"@ =~= seq!['/']);
        if "/"@.is_prefix_of(input@) {
            assert(input@[0] == input@.subrange(0, 1)[0]);
        }
        if leading_slash(input@) {
            assert("/"@ =~= input@.subrange(0, 1));
        }
    }
    match slash {
        Ok((_, after_slash)) => match match_float(after_slash) {
            Ok((value, rest)) => Ok((value, rest)),
            Err(_) => Err((FailKind::NotANumber, after_slash)),
        },
        Err(_) => Err((FailKind::MissingSeparator, input)),
    }
}

} // verus!
