//! Properties of the whole-line parser, stated and proved against its
//! specification [`spec_run`].
//!
//! Each public proof function here is a law of the grammar: what a
//! well-formed line parses to, which malformed shape produces which
//! failure kind, and that the parse is a pure function of the input text.

use vstd::prelude::*;

use crate::failure::{FailKind, FailureView};
use crate::fields::{
    leading_space, method_text, spec_parse_method, Method,
};
use crate::request::{spec_run, RequestView};
use crate::token::{
    exp_len, float_lexeme_len, frac_len, is_digit, is_sign, lemma_digit_run_len_is, sign_len,
    spec_take_until,
};

verus! {

/// The two method literals are told apart by their first character, so
/// the method's own rendering always matches off the front of a line and
/// leaves exactly the text after it.
proof fn lemma_method_prefix(m: Method, r: Seq<char>)
    ensures
        spec_parse_method(method_text(m) + r) == Ok::<(Seq<char>, Seq<char>), (FailKind, Seq<char>)>(
            (method_text(m), r),
        ),
{
    let s = method_text(m) + r;
    match m {
        Method::GET => {
            assert(method_text(Method::GET) =~= s.subrange(0, 3));
            assert(s.skip(3) =~= r);
        },
        Method::POST => {
            if method_text(Method::GET).is_prefix_of(s) {
                assert(s.subrange(0, 3)[0] == s[0]);
                assert(false);
            }
            assert(method_text(Method::POST) =~= s.subrange(0, 4));
            assert(s.skip(4) =~= r);
        },
    }
}

/// Scanning up to a delimiter in `a + b`, where the delimiter does not
/// occur in `a` and `b` starts with it, splits exactly at the boundary.
proof fn lemma_take_until_boundary(c: char, a: Seq<char>, b: Seq<char>)
    requires
        forall|j: int| 0 <= j < a.len() ==> a[j] != c,
        b.len() > 0,
        b[0] == c,
    ensures
        spec_take_until(c, a + b) == Some((a, b)),
{
    let s = a + b;
    assert(s[a.len() as int] == c);
    assert(s.contains(c)) by {
        assert(s[a.len() as int] == c);
    }
    s.index_of_first_ensures(c);
    let fi = s.index_of_first(c).unwrap();
    if fi < a.len() {
        assert(s[fi] == a[fi]);
        assert(false);
    }
    if fi > a.len() {
        assert(false);
    }
    assert(s.take(a.len() as int) =~= a);
    assert(s.skip(a.len() as int) =~= b);
}

/// Parsing is a pure function of the input text: any two results that the
/// contract of `run_parser` admits for one and the same input are equal,
/// so running the parser twice on an input yields identical results.
pub proof fn lemma_parser_deterministic(
    s: Seq<char>,
    r1: Result<RequestView, FailureView>,
    r2: Result<RequestView, FailureView>,
)
    requires
        r1 == spec_run(s),
        r2 == spec_run(s),
    ensures
        r1 == r2,
{
}

/// An input that starts with no supported method literal fails with
/// `UnknownMethod`, and the offending fragment is the whole input.
pub proof fn lemma_unknown_method(s: Seq<char>)
    requires
        !method_text(Method::GET).is_prefix_of(s),
        !method_text(Method::POST).is_prefix_of(s),
    ensures
        spec_run(s) == Err::<RequestView, FailureView>(
            FailureView { kind: FailKind::UnknownMethod, fragment: s },
        ),
{
}

/// A missing space between the method and the target fails the parse
/// with `MissingSeparator`; the fragment is everything after the method.
pub proof fn lemma_missing_target_separator(m: Method, r: Seq<char>)
    requires
        !leading_space(r),
    ensures
        spec_run(method_text(m) + r) == Err::<RequestView, FailureView>(
            FailureView { kind: FailKind::MissingSeparator, fragment: r },
        ),
{
    lemma_method_prefix(m, r);
}

/// A target with no terminating space before the protocol fails the
/// parse with `UnterminatedTarget`; the fragment is everything after the
/// separator.
pub proof fn lemma_unterminated_target(m: Method, r: Seq<char>)
    requires
        forall|j: int| 0 <= j < r.len() ==> r[j] != ' ',
    ensures
        spec_run(method_text(m) + seq![' '] + r) == Err::<RequestView, FailureView>(
            FailureView { kind: FailKind::UnterminatedTarget, fragment: r },
        ),
{
    let rest1 = seq![' '] + r;
    lemma_method_prefix(m, rest1);
    assert(method_text(m) + seq![' '] + r =~= method_text(m) + rest1);
    assert(leading_space(rest1));
    assert(rest1.skip(1) =~= r);
    r.index_of_first_ensures(' ');
    if r.contains(' ') {
        let i = choose|i: int| 0 <= i < r.len() && r[i] == ' ';
        assert(false);
    }
}

/// A version field that does not start with a numeric literal fails the
/// parse with `NotANumber`; the fragment is everything after the slash.
pub proof fn lemma_version_not_a_number(m: Method, t: Seq<char>, p: Seq<char>, w: Seq<char>)
    requires
        forall|j: int| 0 <= j < t.len() ==> t[j] != ' ',
        forall|j: int| 0 <= j < p.len() ==> p[j] != '/',
        float_lexeme_len(w) == 0,
    ensures
        spec_run(method_text(m) + seq![' '] + t + seq![' '] + p + seq!['/'] + w) == Err::<
            RequestView,
            FailureView,
        >(FailureView { kind: FailKind::NotANumber, fragment: w }),
{
    let rest3 = seq!['/'] + w;
    let s2 = p + rest3;
    let rest2 = seq![' '] + s2;
    let s1 = t + rest2;
    let rest1 = seq![' '] + s1;
    lemma_method_prefix(m, rest1);
    assert(method_text(m) + seq![' '] + t + seq![' '] + p + seq!['/'] + w =~= method_text(m)
        + rest1);
    assert(leading_space(rest1));
    assert(rest1.skip(1) =~= s1);
    lemma_take_until_boundary(' ', t, rest2);
    assert(leading_space(rest2));
    assert(rest2.skip(1) =~= s2);
    lemma_take_until_boundary('/', p, rest3);
    assert(rest3.skip(1) =~= w);
}

/// The numeric lexeme at the front of `ip + "." + fp + tail` is exactly
/// `ip + "." + fp` when `ip` and `fp` are nonempty digit runs and `tail`
/// starts with nothing that could extend the literal.
proof fn lemma_float_lexeme_exact(ip: Seq<char>, fp: Seq<char>, tail: Seq<char>)
    requires
        ip.len() > 0,
        fp.len() > 0,
        forall|j: int| 0 <= j < ip.len() ==> is_digit(ip[j]),
        forall|j: int| 0 <= j < fp.len() ==> is_digit(fp[j]),
        tail.len() > 0 ==> !is_digit(tail[0]) && tail[0] != 'e' && tail[0] != 'E',
    ensures
        float_lexeme_len(ip + (seq!['.'] + (fp + tail))) == ip.len() + 1 + fp.len(),
{
    let s = ip + (seq!['.'] + (fp + tail));
    assert(s[0] == ip[0]);
    assert(!is_sign(s[0]));
    assert(sign_len(s) == 0);
    assert(s.skip(0) =~= s);
    assert forall|j: int| 0 <= j < ip.len() implies is_digit(s[j]) by {
        assert(s[j] == ip[j]);
    }
    assert(s[ip.len() as int] == '.');
    lemma_digit_run_len_is(s, ip.len() as nat);
    let sf = s.skip(ip.len() as int);
    assert(sf =~= seq!['.'] + (fp + tail));
    assert(sf.skip(1) =~= fp + tail);
    assert forall|j: int| 0 <= j < fp.len() implies is_digit((fp + tail)[j]) by {
        assert((fp + tail)[j] == fp[j]);
    }
    if fp.len() < (fp + tail).len() {
        assert((fp + tail)[fp.len() as int] == tail[0]);
    }
    lemma_digit_run_len_is(fp + tail, fp.len() as nat);
    assert(frac_len(sf) == 1 + fp.len());
    let se = s.skip(ip.len() + 1 + fp.len() as int);
    assert(se =~= tail);
    assert(exp_len(tail) == 0);
}

/// Every well-formed request line parses to exactly its parts: a
/// supported method, a target without spaces, a protocol name without
/// slashes or spaces, and a version written as digits, a dot and more
/// digits come back as the four fields of the request, whatever trailing
/// text follows the version as long as it cannot extend the numeric
/// lexeme (a `\r\n` line terminator cannot).
#[verifier::rlimit(100)]
pub proof fn lemma_wellformed_line_parses(
    m: Method,
    t: Seq<char>,
    p: Seq<char>,
    ip: Seq<char>,
    fp: Seq<char>,
    tail: Seq<char>,
)
    requires
        forall|j: int| 0 <= j < t.len() ==> t[j] != ' ',
        forall|j: int| 0 <= j < p.len() ==> p[j] != '/' && p[j] != ' ',
        ip.len() > 0,
        fp.len() > 0,
        forall|j: int| 0 <= j < ip.len() ==> is_digit(ip[j]),
        forall|j: int| 0 <= j < fp.len() ==> is_digit(fp[j]),
        tail.len() > 0 ==> !is_digit(tail[0]) && tail[0] != 'e' && tail[0] != 'E',
    ensures
        spec_run(
            method_text(m) + seq![' '] + t + seq![' '] + p + seq!['/'] + (ip + seq!['.'] + fp)
                + tail,
        ) == Ok::<RequestView, FailureView>(
            RequestView {
                method: method_text(m),
                url: t,
                protocol: p,
                version: ip + seq!['.'] + fp,
            },
        ),
{
    let v = ip + seq!['.'] + fp;
    let rest3 = seq!['/'] + (v + tail);
    let s2 = p + rest3;
    let rest2 = seq![' '] + s2;
    let s1 = t + rest2;
    let rest1 = seq![' '] + s1;
    lemma_method_prefix(m, rest1);
    assert(method_text(m) + seq![' '] + t + seq![' '] + p + seq!['/'] + v + tail =~= method_text(m)
        + rest1);
    assert(leading_space(rest1));
    assert(rest1.skip(1) =~= s1);
    lemma_take_until_boundary(' ', t, rest2);
    assert(leading_space(rest2));
    assert(rest2.skip(1) =~= s2);
    lemma_take_until_boundary('/', p, rest3);
    let w = rest3.skip(1);
    assert(w =~= v + tail);
    assert(v + tail =~= ip + (seq!['.'] + (fp + tail)));
    lemma_float_lexeme_exact(ip, fp, tail);
    assert(float_lexeme_len(w) == v.len());
    assert(w.take(v.len() as int) =~= v);
}

/// A supported method never silently matches as a mere prefix of a
/// longer token: a successful parse forces the space separator to follow
/// the method literal immediately, so the method token itself is exactly
/// one of the enumerated literals.
pub proof fn lemma_method_token_delimited(s: Seq<char>)
    requires
        spec_run(s) is Ok,
    ensures
        (spec_run(s)->Ok_0.method + seq![' ']).is_prefix_of(s),
{
    let mt = spec_run(s)->Ok_0.method;
    let k = mt.len() as int;
    assert(spec_parse_method(s) is Ok);
    let rest1 = spec_parse_method(s)->Ok_0.1;
    assert(mt == spec_parse_method(s)->Ok_0.0);
    assert(mt.is_prefix_of(s) && rest1 == s.skip(k));
    assert(leading_space(rest1));
    assert(s[k] == ' ');
    assert((mt + seq![' ']) =~= s.subrange(0, k + 1));
}

} // verus!
