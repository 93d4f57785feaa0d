//! Primitive token matchers.
//!
//! Each matcher borrows the remaining input, consumes a prefix of it and
//! returns the consumed value together with the unconsumed remainder, or a
//! [`FailKind`] when the prefix it recognizes is absent.

use vstd::prelude::*;
use vstd::string::*;

use crate::failure::FailKind;

verus! {

/// A decimal digit.
pub open spec fn is_digit(c: char) -> bool {
    '0' <= c && c <= '9'
}

/// True when the character at `i` in `input` is a decimal digit.
fn digit_at(input: &str, i: usize) -> (b: bool)
    requires
        i < input@.len(),
    ensures
        b == is_digit(input@[i as int]),
{
    let c = input.get_char(i);
    '0' <= c && c <= '9'
}

/// A sign character, as a decimal literal may carry one.
pub open spec fn is_sign(c: char) -> bool {
    c == '+' || c == '-'
}

/// Length of the maximal run of decimal digits at the front of `s`.
pub open spec fn digit_run_len(s: Seq<char>) -> nat
    decreases s.len(),
{
    if s.len() > 0 && is_digit(s[0]) {
        1 + digit_run_len(s.skip(1))
    } else {
        0
    }
}

/// The quantified description of a digit run pins its length down: any `n`
/// with digits everywhere before it and none right after it is the length
/// that [`digit_run_len`] computes.
pub proof fn lemma_digit_run_len_is(s: Seq<char>, n: nat)
    requires
        n <= s.len(),
        forall|j: int| 0 <= j < n ==> is_digit(s[j]),
        n < s.len() ==> !is_digit(s[n as int]),
    ensures
        digit_run_len(s) == n,
    decreases s.len(),
{
    if s.len() > 0 && is_digit(s[0]) {
        assert(n > 0);
        assert forall|j: int| 0 <= j < n - 1 implies is_digit(s.skip(1)[j]) by {
            assert(s.skip(1)[j] == s[j + 1]);
        }
        if n - 1 < s.skip(1).len() {
            assert(s.skip(1)[n - 1] == s[n as int]);
        }
        lemma_digit_run_len_is(s.skip(1), (n - 1) as nat);
    } else {
        if n > 0 {
            assert(is_digit(s[0]));
        }
    }
}

/// Length of the optional leading sign of `s`.
pub open spec fn sign_len(s: Seq<char>) -> nat {
    if s.len() > 0 && is_sign(s[0]) {
        1
    } else {
        0
    }
}

/// Length of a fractional part (a dot followed by at least one digit) at
/// the front of `s`, or zero when there is none.
pub open spec fn frac_len(s: Seq<char>) -> nat {
    if s.len() > 0 && s[0] == '.' && digit_run_len(s.skip(1)) > 0 {
        1 + digit_run_len(s.skip(1))
    } else {
        0
    }
}

/// Length of an exponent part (`e` or `E`, an optional sign, then at least
/// one digit) at the front of `s`, or zero when no complete exponent starts
/// there.
pub open spec fn exp_len(s: Seq<char>) -> nat {
    if s.len() > 0 && (s[0] == 'e' || s[0] == 'E') {
        let b = sign_len(s.skip(1));
        let d = digit_run_len(s.skip(1 + b as int));
        if d > 0 {
            1 + b + d
        } else {
            0
        }
    } else {
        0
    }
}

/// Length of the maximal prefix of `s` that forms a decimal floating-point
/// literal: an optional sign, at least one digit, an optional `.` followed
/// by digits, and an optional exponent.  Zero exactly when no such prefix
/// exists, since a valid literal is never empty.
pub open spec fn float_lexeme_len(s: Seq<char>) -> nat {
    let b = sign_len(s);
    let d = digit_run_len(s.skip(b as int));
    if d == 0 {
        0
    } else {
        let m = b + d + frac_len(s.skip((b + d) as int));
        m + exp_len(s.skip(m as int))
    }
}

/// What [`take_until`] returns: the prefix of `s` that precedes the first
/// occurrence of `delim` and the remainder from that occurrence on, or
/// `None` when `delim` does not occur in `s` at all.
pub open spec fn spec_take_until(delim: char, s: Seq<char>) -> Option<(Seq<char>, Seq<char>)> {
    match s.index_of_first(delim) {
        Some(i) => Some((s.take(i), s.skip(i))),
        None => None,
    }
}

/// Succeeds exactly when `input` starts with `literal`; the remainder is
/// `input` with that prefix removed.
pub fn match_literal<'a>(literal: &str, input: &'a str) -> (r: Result<
    (&'a str, &'a str),
    FailKind,
>)
    ensures
        r is Ok <==> literal@.is_prefix_of(input@),
        r matches Ok((consumed, rest)) ==> {
            &&& consumed@ == literal@
            &&& rest@ == input@.skip(literal@.len() as int)
        },
        r matches Err(k) ==> k == FailKind::LiteralMismatch,
{
    let llen = literal.unicode_len();
    let ilen = input.unicode_len();
    if llen > ilen {
        return Err(FailKind::LiteralMismatch);
    }
    let mut i: usize = 0;
    while i < llen
        invariant
            i <= llen,
            llen == literal@.len(),
            ilen == input@.len(),
            llen <= ilen,
            forall|j: int| 0 <= j < i ==> literal@[j] == input@[j],
        decreases llen - i,
    {
        if literal.get_char(i) != input.get_char(i) {
            proof {
                assert(input@.subrange(0, llen as int)[i as int] == input@[i as int]);
            }
            return Err(FailKind::LiteralMismatch);
        }
        i += 1;
    }
    let consumed = input.substring_char(0, llen);
    let rest = input.substring_char(llen, ilen);
    proof {
        assert(literal@ =~= input@.subrange(0, llen as int));
        assert(rest@ =~= input@.skip(llen as int));
    }
    Ok((consumed, rest))
}

/// Scans `input` left to right for the first occurrence of `delim`.  On
/// success the consumed value is everything before that occurrence (possibly
/// empty) and the remainder starts with `delim` itself, which is not
/// consumed.  Fails when `delim` is absent from the whole of `input`.
pub fn take_until<'a>(delim: char, input: &'a str) -> (r: Result<(&'a str, &'a str), FailKind>)
    ensures
        r is Ok <==> input@.contains(delim),
        r is Ok <==> spec_take_until(delim, input@) is Some,
        r matches Ok((consumed, rest)) ==> {
            &&& spec_take_until(delim, input@) == Some((consumed@, rest@))
            &&& consumed@ + rest@ == input@
            &&& forall|j: int| 0 <= j < consumed@.len() ==> input@[j] != delim
            &&& rest@.len() > 0 && rest@[0] == delim
        },
        r matches Err(k) ==> k == FailKind::DelimiterNotFound,
{
    let ilen = input.unicode_len();
    let mut i: usize = 0;
    while i < ilen
        invariant
            i <= ilen,
            ilen == input@.len(),
            forall|j: int| 0 <= j < i ==> input@[j] != delim,
        decreases ilen - i,
    {
        if input.get_char(i) == delim {
            let consumed = input.substring_char(0, i);
            let rest = input.substring_char(i, ilen);
            proof {
                input@.index_of_first_ensures(delim);
                assert(input@.contains(delim)) by {
                    assert(input@[i as int] == delim);
                }
                let fi = input@.index_of_first(delim).unwrap();
                assert(fi == i);
                assert(consumed@ =~= input@.take(i as int));
                assert(rest@ =~= input@.skip(i as int));
                assert(consumed@ + rest@ =~= input@);
            }
            return Ok((consumed, rest));
        }
        i += 1;
    }
    proof {
        input@.index_of_first_ensures(delim);
    }
    Err(FailKind::DelimiterNotFound)
}

/// Index just past the maximal run of decimal digits of `input` that starts
/// at `from`.
fn digit_run_end(input: &str, from: usize, ilen: usize) -> (end: usize)
    requires
        ilen == input@.len(),
        from <= ilen,
    ensures
        from <= end <= ilen,
        end - from == digit_run_len(input@.skip(from as int)),
{
    let mut i: usize = from;
    while i < ilen && digit_at(input, i)
        invariant
            from <= i <= ilen,
            ilen == input@.len(),
            forall|j: int| from <= j < i ==> is_digit(input@[j]),
        decreases ilen - i,
    {
        i += 1;
    }
    proof {
        let s = input@.skip(from as int);
        assert forall|j: int| 0 <= j < i - from implies is_digit(s[j]) by {
            assert(s[j] == input@[j + from]);
        }
        if i - from < s.len() {
            assert(s[i - from] == input@[i as int]);
        }
        lemma_digit_run_len_is(s, (i - from) as nat);
    }
    i
}

/// Scans the maximal prefix of `input` that forms a decimal floating-point
/// literal (optional sign, digits, optional `.` plus digits, optional
/// exponent) and returns that lexeme together with the remainder.  Fails
/// with `NotANumber` when no numeric literal starts at the very beginning
/// of `input`.
#[verifier::rlimit(60)]
pub fn match_float<'a>(input: &'a str) -> (r: Result<(&'a str, &'a str), FailKind>)
    ensures
        r is Ok <==> float_lexeme_len(input@) > 0,
        r matches Ok((consumed, rest)) ==> {
            &&& consumed@ == input@.take(float_lexeme_len(input@) as int)
            &&& rest@ == input@.skip(float_lexeme_len(input@) as int)
            &&& consumed@.len() > 0
        },
        r matches Err(k) ==> k == FailKind::NotANumber,
{
    let ilen = input.unicode_len();
    let mut b: usize = 0;
    if ilen > 0 {
        let c = input.get_char(0);
        if c == '+' || c == '-' {
            b = 1;
        }
    }
    proof {
        assert(b == sign_len(input@));
    }
    let d_end = digit_run_end(input, b, ilen);
    if d_end == b {
        return Err(FailKind::NotANumber);
    }
    let mut m: usize = d_end;
    if m < ilen {
        let c = input.get_char(m);
        if c == '.' {
            let f_end = digit_run_end(input, m + 1, ilen);
            proof {
                assert(input@.skip(d_end as int).skip(1) =~= input@.skip(d_end + 1));
            }
            if f_end > m + 1 {
                m = f_end;
            }
        }
    }
    proof {
        assert(m == d_end + frac_len(input@.skip(d_end as int)));
    }
    let mut end: usize = m;
    if end < ilen {
        let c = input.get_char(end);
        if c == 'e' || c == 'E' {
            let mut eb: usize = end + 1;
            if eb < ilen {
                let c2 = input.get_char(eb);
                if c2 == '+' || c2 == '-' {
                    eb = eb + 1;
                }
            }
            proof {
                assert(input@.skip(m as int).skip(1) =~= input@.skip(m + 1));
                assert(eb - (m + 1) == sign_len(input@.skip(m + 1)));
                assert(input@.skip(m + 1).skip((eb - (m + 1)) as int) =~= input@.skip(
                    eb as int,
                ));
            }
            let e_end = digit_run_end(input, eb, ilen);
            proof {
                assert(input@.skip(m as int).skip((eb - m) as int) =~= input@.skip(eb as int));
                assert(digit_run_len(input@.skip(m as int).skip((eb - m) as int)) == e_end - eb);
            }
            if e_end > eb {
                end = e_end;
            }
        }
    }
    proof {
        assert(end == float_lexeme_len(input@));
    }
    let consumed = input.substring_char(0, end);
    let rest = input.substring_char(end, ilen);
    proof {
        assert(consumed@ =~= input@.take(end as int));
        assert(rest@ =~= input@.skip(end as int));
    }
    Ok((consumed, rest))
}

} // verus!
