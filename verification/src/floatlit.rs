//! Verified recognition of decimal floating-point literals.
//!
//! The binder stores a floating-point value as its literal text (see
//! [`crate::types::FloatLit`]); what it checks is that the text follows
//! the usual grammar for such literals:
//!
//! ```text
//! Literal  ::= Sign? ( 'inf' | 'infinity' | 'nan' | Number )
//! Number   ::= ( Digit+ | Digit+ '.' Digit* | Digit* '.' Digit+ ) Exp?
//! Exp      ::= ('e' | 'E') Sign? Digit+
//! Sign     ::= '+' | '-'
//! ```
//!
//! with the three keywords recognized case-insensitively.

use vstd::prelude::*;
use crate::numeric::all_digits;
use crate::numeric::is_digit;
use crate::numeric::signed_body;

verus! {

/// The index of the first non-digit character of `s` at or after `i`
/// (or the length of `s` when the digits run to the end).
pub open spec fn digits_prefix_end(s: Seq<char>, i: int) -> int
    decreases s.len() - i when 0 <= i <= s.len()
{
    if i >= s.len() {
        i
    } else if is_digit(s[i]) {
        digits_prefix_end(s, i + 1)
    } else {
        i
    }
}

/// Where the mantissa of `s` ends: its leading digits, and, when a dot
/// follows them, the dot and the digits after it.
pub open spec fn mantissa_end(s: Seq<char>) -> int {
    let d1 = digits_prefix_end(s, 0);
    if d1 < s.len() && s[d1] == '.' {
        digits_prefix_end(s, d1 + 1)
    } else {
        d1
    }
}

/// How many digits the mantissa of `s` holds (on either side of the
/// dot together); a well-formed mantissa needs at least one.
pub open spec fn mantissa_digit_count(s: Seq<char>) -> int {
    let d1 = digits_prefix_end(s, 0);
    if d1 < s.len() && s[d1] == '.' {
        mantissa_end(s) - 1
    } else {
        d1
    }
}

/// Whether `s` is an exponent part: `e` or `E`, an optional sign, and
/// at least one digit.
pub open spec fn is_exp_part(s: Seq<char>) -> bool {
    &&& s.len() >= 1
    &&& (s[0] == 'e' || s[0] == 'E')
    &&& {
        let b = signed_body(s.subrange(1, s.len() as int));
        b.len() > 0 && all_digits(b)
    }
}

/// Whether `s` is a number: a mantissa with at least one digit,
/// optionally followed by an exponent part.
pub open spec fn is_number(s: Seq<char>) -> bool {
    &&& mantissa_digit_count(s) > 0
    &&& (mantissa_end(s) == s.len() || is_exp_part(s.subrange(mantissa_end(s), s.len() as int)))
}

/// Whether `s` is the keyword `inf`, case-insensitively.
pub open spec fn is_inf_kw(s: Seq<char>) -> bool {
    &&& s.len() == 3
    &&& (s[0] == 'i' || s[0] == 'I')
    &&& (s[1] == 'n' || s[1] == 'N')
    &&& (s[2] == 'f' || s[2] == 'F')
}

/// Whether `s` is the keyword `infinity`, case-insensitively.
pub open spec fn is_infinity_kw(s: Seq<char>) -> bool {
    &&& s.len() == 8
    &&& (s[0] == 'i' || s[0] == 'I')
    &&& (s[1] == 'n' || s[1] == 'N')
    &&& (s[2] == 'f' || s[2] == 'F')
    &&& (s[3] == 'i' || s[3] == 'I')
    &&& (s[4] == 'n' || s[4] == 'N')
    &&& (s[5] == 'i' || s[5] == 'I')
    &&& (s[6] == 't' || s[6] == 'T')
    &&& (s[7] == 'y' || s[7] == 'Y')
}

/// Whether `s` is the keyword `nan`, case-insensitively.
pub open spec fn is_nan_kw(s: Seq<char>) -> bool {
    &&& s.len() == 3
    &&& (s[0] == 'n' || s[0] == 'N')
    &&& (s[1] == 'a' || s[1] == 'A')
    &&& (s[2] == 'n' || s[2] == 'N')
}

/// Whether `s` is a well-formed floating-point literal.
pub open spec fn is_float_literal(s: Seq<char>) -> bool {
    let b = signed_body(s);
    is_inf_kw(b) || is_infinity_kw(b) || is_nan_kw(b) || is_number(b)
}

/// Whether `c` is a decimal digit.
fn digit_exec(c: char) -> (r: bool)
    ensures
        r == is_digit(c),
{
    let cu = c as u32;
    48 <= cu && cu <= 57
}

/// The executable twin of [`digits_prefix_end`].
fn digits_end(b: &Vec<char>, i: usize) -> (r: usize)
    requires
        i <= b@.len(),
    ensures
        r == digits_prefix_end(b@, i as int),
        i <= r <= b@.len(),
{
    let mut j = i;
    while j < b.len() && digit_exec(b[j])
        invariant
            i <= j <= b@.len(),
            digits_prefix_end(b@, i as int) == digits_prefix_end(b@, j as int),
        decreases b@.len() - j,
    {
        j = j + 1;
    }
    j
}

/// The characters of `v` from index `from` to the end.
fn tail_chars(v: &Vec<char>, from: usize) -> (r: Vec<char>)
    requires
        from <= v@.len(),
    ensures
        r@ == v@.subrange(from as int, v@.len() as int),
{
    let mut r: Vec<char> = Vec::new();
    let mut i = from;
    while i < v.len()
        invariant
            from <= i <= v@.len(),
            r@ == v@.subrange(from as int, i as int),
        decreases v@.len() - i,
    {
        r.push(v[i]);
        proof {
            assert(v@.subrange(from as int, i + 1 as int) =~= v@.subrange(
                from as int,
                i as int,
            ).push(v@[i as int]));
        }
        i = i + 1;
    }
    r
}

/// Whether `b` is one of the keywords `inf`, `infinity` or `nan`,
/// case-insensitively.
fn check_keyword(b: &Vec<char>) -> (r: bool)
    ensures
        r == (is_inf_kw(b@) || is_infinity_kw(b@) || is_nan_kw(b@)),
{
    if b.len() == 3 {
        let inf = (b[0] == 'i' || b[0] == 'I') && (b[1] == 'n' || b[1] == 'N') && (b[2] == 'f'
            || b[2] == 'F');
        let nan = (b[0] == 'n' || b[0] == 'N') && (b[1] == 'a' || b[1] == 'A') && (b[2] == 'n'
            || b[2] == 'N');
        inf || nan
    } else if b.len() == 8 {
        (b[0] == 'i' || b[0] == 'I') && (b[1] == 'n' || b[1] == 'N') && (b[2] == 'f' || b[2]
            == 'F') && (b[3] == 'i' || b[3] == 'I') && (b[4] == 'n' || b[4] == 'N') && (b[5] == 'i'
            || b[5] == 'I') && (b[6] == 't' || b[6] == 'T') && (b[7] == 'y' || b[7] == 'Y')
    } else {
        false
    }
}

/// Whether `b` is a number per the grammar above.
fn check_number(b: &Vec<char>) -> (r: bool)
    ensures
        r == is_number(b@),
{
    let n = b.len();
    let d1 = digits_end(b, 0);
    let m_end: usize;
    let m_digits: usize;
    if d1 < n && b[d1] == '.' {
        let d2 = digits_end(b, d1 + 1);
        m_end = d2;
        m_digits = d2 - 1;
    } else {
        m_end = d1;
        m_digits = d1;
    }
    if m_digits == 0 {
        return false;
    }
    if m_end == n {
        return true;
    }
    let ghost exp = b@.subrange(m_end as int, n as int);
    let c = b[m_end];
    proof {
        assert(exp[0] == b@[m_end as int]);
    }
    if !(c == 'e' || c == 'E') {
        return false;
    }
    let mut j = m_end + 1;
    if j < n && (b[j] == '+' || b[j] == '-') {
        j = j + 1;
    }
    proof {
        assert(signed_body(exp.subrange(1, exp.len() as int)) =~= b@.subrange(j as int, n as int));
    }
    if j == n {
        return false;
    }
    let d3 = digits_end(b, j);
    proof {
        lemma_digits_prefix_end_props(b@, j as int);
        if d3 == n {
            assert(forall|k: int|
                0 <= k < b@.subrange(j as int, n as int).len() ==> is_digit(
                    #[trigger] b@.subrange(j as int, n as int)[k],
                ));
        } else {
            assert(b@.subrange(j as int, n as int)[d3 - j] == b@[d3 as int]);
        }
    }
    d3 == n
}

/// Everything strictly before `digits_prefix_end(s, i)` is a digit, and
/// the character there, when it exists, is not.
proof fn lemma_digits_prefix_end_props(s: Seq<char>, i: int)
    requires
        0 <= i <= s.len(),
    ensures
        i <= digits_prefix_end(s, i) <= s.len(),
        forall|k: int| i <= k < digits_prefix_end(s, i) ==> is_digit(#[trigger] s[k]),
        digits_prefix_end(s, i) < s.len() ==> !is_digit(s[digits_prefix_end(s, i)]),
    decreases s.len() - i,
{
    if i < s.len() && is_digit(s[i]) {
        lemma_digits_prefix_end_props(s, i + 1);
    }
}

/// Whether the whole character vector is a well-formed floating-point
/// literal.
pub fn check_float_lit(v: &Vec<char>) -> (r: bool)
    ensures
        r == is_float_literal(v@),
{
    let off: usize = if v.len() > 0 && (v[0] == '+' || v[0] == '-') {
        1
    } else {
        0
    };
    let body = tail_chars(v, off);
    proof {
        assert(signed_body(v@) =~= body@);
    }
    if check_keyword(&body) {
        return true;
    }
    check_number(&body)
}

} // verus!
