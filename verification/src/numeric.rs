//! Verified decimal integer literals.
//!
//! The spec functions here give the mathematical value of a decimal
//! literal; the executable parsers are proved to return exactly that
//! value whenever the literal is well formed and in range, and to fail
//! otherwise.

use vstd::prelude::*;
use crate::strutil::push_char;

verus! {

/// Whether `c` is a decimal digit.
pub open spec fn is_digit(c: char) -> bool {
    48 <= c as u32 <= 57
}

/// The numeric value of a decimal digit character.
pub open spec fn digit_val(c: char) -> int {
    c as u32 - 48
}

/// Whether every character of `s` is a decimal digit.
pub open spec fn all_digits(s: Seq<char>) -> bool {
    forall|i: int| 0 <= i < s.len() ==> is_digit(#[trigger] s[i])
}

/// The mathematical value of a sequence of decimal digits, most
/// significant first.
pub open spec fn digits_val(s: Seq<char>) -> int
    decreases s.len(),
{
    if s.len() == 0 {
        0
    } else {
        10 * digits_val(s.drop_last()) + digit_val(s.last())
    }
}

/// The digits of an unsigned literal: everything after an optional
/// leading `+`.
pub open spec fn unsigned_body(s: Seq<char>) -> Seq<char> {
    if s.len() > 0 && s[0] == '+' {
        s.subrange(1, s.len() as int)
    } else {
        s
    }
}

/// Whether `s` is a well-formed unsigned decimal literal: an optional
/// `+` followed by at least one digit.
pub open spec fn is_unsigned_literal(s: Seq<char>) -> bool {
    unsigned_body(s).len() > 0 && all_digits(unsigned_body(s))
}

/// The mathematical value of a well-formed unsigned literal.
pub open spec fn unsigned_literal_val(s: Seq<char>) -> int {
    digits_val(unsigned_body(s))
}

/// Whether `s` parses as a `u128`: well formed and within the width.
pub open spec fn parses_as_u128(s: Seq<char>) -> bool {
    is_unsigned_literal(s) && unsigned_literal_val(s) <= u128::MAX
}

/// The digits of a signed literal: everything after an optional leading
/// `+` or `-`.
pub open spec fn signed_body(s: Seq<char>) -> Seq<char> {
    if s.len() > 0 && (s[0] == '+' || s[0] == '-') {
        s.subrange(1, s.len() as int)
    } else {
        s
    }
}

/// Whether `s` is a well-formed signed decimal literal: an optional sign
/// followed by at least one digit.
pub open spec fn is_signed_literal(s: Seq<char>) -> bool {
    signed_body(s).len() > 0 && all_digits(signed_body(s))
}

/// The mathematical value of a well-formed signed literal.
pub open spec fn signed_literal_val(s: Seq<char>) -> int {
    if s.len() > 0 && s[0] == '-' {
        -digits_val(signed_body(s))
    } else {
        digits_val(signed_body(s))
    }
}

/// Whether `s` parses as an `i128`: well formed and within the width.
pub open spec fn parses_as_i128(s: Seq<char>) -> bool {
    is_signed_literal(s) && i128::MIN <= signed_literal_val(s) <= i128::MAX
}

/// The digit character for a value between zero and nine.
pub open spec fn dec_digit_char(d: int) -> char {
    if d == 0 {
        '0'
    } else if d == 1 {
        '1'
    } else if d == 2 {
        '2'
    } else if d == 3 {
        '3'
    } else if d == 4 {
        '4'
    } else if d == 5 {
        '5'
    } else if d == 6 {
        '6'
    } else if d == 7 {
        '7'
    } else if d == 8 {
        '8'
    } else {
        '9'
    }
}

/// The decimal rendering of `n`, without sign or leading zeros.
pub open spec fn dec_str_of(n: nat) -> Seq<char>
    decreases n,
{
    if n < 10 {
        seq![dec_digit_char(n as int)]
    } else {
        dec_str_of(n / 10).push(dec_digit_char((n % 10) as int))
    }
}

/// The executable twin of [`dec_digit_char`].
fn dec_digit_exec(d: usize) -> (c: char)
    requires
        d < 10,
    ensures
        c == dec_digit_char(d as int),
{
    if d == 0 {
        '0'
    } else if d == 1 {
        '1'
    } else if d == 2 {
        '2'
    } else if d == 3 {
        '3'
    } else if d == 4 {
        '4'
    } else if d == 5 {
        '5'
    } else if d == 6 {
        '6'
    } else if d == 7 {
        '7'
    } else if d == 8 {
        '8'
    } else {
        '9'
    }
}

/// The rendering of `n` still owed once the low-order digits in `ds`
/// (stored in reverse) have been peeled off, leaving `m`.
spec fn dec_build(m: nat, ds: Seq<char>) -> Seq<char> {
    if m == 0 && ds.len() > 0 {
        ds.reverse()
    } else {
        dec_str_of(m) + ds.reverse()
    }
}

/// Renders `n` in decimal.
pub fn usize_to_string(n: usize) -> (s: String)
    ensures
        s@ == dec_str_of(n as nat),
{
    let mut digits: Vec<char> = Vec::new();
    let mut m = n;
    loop
        invariant_except_break
            dec_str_of(n as nat) == dec_build(m as nat, digits@),
            m == 0 ==> digits@.len() == 0,
        ensures
            dec_str_of(n as nat) == digits@.reverse(),
        decreases m,
    {
        let d = m % 10;
        let c = dec_digit_exec(d);
        proof {
            assert(digits@.push(c).reverse() =~= seq![c] + digits@.reverse());
            if m >= 10 {
                assert(dec_str_of(m as nat) == dec_str_of((m / 10) as nat).push(
                    dec_digit_char((m % 10) as int),
                ));
                assert(dec_str_of((m / 10) as nat).push(c) + digits@.reverse() =~= dec_str_of(
                    (m / 10) as nat,
                ) + (seq![c] + digits@.reverse()));
            } else {
                assert(dec_str_of(m as nat) =~= seq![c]);
                assert(seq![c] + digits@.reverse() =~= digits@.push(c).reverse());
            }
        }
        digits.push(c);
        m = m / 10;
        if m == 0 {
            break;
        }
    }
    let mut s = String::new();
    let mut i = digits.len();
    while i > 0
        invariant
            i <= digits@.len(),
            dec_str_of(n as nat) == digits@.reverse(),
            s@ == digits@.skip(i as int).reverse(),
        decreases i,
    {
        i = i - 1;
        proof {
            assert(digits@.skip(i as int).reverse() =~= digits@.skip(i + 1 as int).reverse().push(
                digits@[i as int],
            ));
        }
        push_char(&mut s, digits[i]);
    }
    proof {
        assert(digits@.skip(0) =~= digits@);
    }
    s
}

/// Appending a digit multiplies the value by ten and adds the digit.
proof fn lemma_digits_val_push(s: Seq<char>, c: char)
    ensures
        digits_val(s.push(c)) == 10 * digits_val(s) + digit_val(c),
{
    assert(s.push(c).drop_last() =~= s);
    assert(s.push(c).last() == c);
}

/// The value of a digit string is never negative.
proof fn lemma_digits_val_nonneg(s: Seq<char>)
    requires
        all_digits(s),
    ensures
        digits_val(s) >= 0,
    decreases s.len(),
{
    if s.len() > 0 {
        assert(all_digits(s.drop_last())) by {
            assert(forall|i: int|
                0 <= i < s.drop_last().len() ==> #[trigger] s.drop_last()[i] == s[i]);
        }
        lemma_digits_val_nonneg(s.drop_last());
    }
}

/// Parses the digits of `v` from index `from` to the end as a `u128`.
/// Returns the exact value when they are one or more digits whose value
/// fits; fails otherwise.
fn parse_digits_u128(v: &Vec<char>, from: usize) -> (r: Option<u128>)
    requires
        from <= v@.len(),
    ensures
        ({
            let body = v@.subrange(from as int, v@.len() as int);
            &&& (r is Some <==> body.len() > 0 && all_digits(body) && digits_val(body)
                <= u128::MAX)
            &&& (r matches Some(x) ==> x == digits_val(body))
        }),
{
    let n = v.len();
    if from == n {
        return None;
    }
    let mut i = from;
    let mut acc: u128 = 0;
    let mut over = false;
    while i < n
        invariant
            from <= i <= n,
            n == v@.len(),
            all_digits(v@.subrange(from as int, i as int)),
            !over ==> acc == digits_val(v@.subrange(from as int, i as int)),
            over ==> digits_val(v@.subrange(from as int, i as int)) > u128::MAX,
        decreases n - i,
    {
        let c = v[i];
        let cu = c as u32;
        if cu < 48 || cu > 57 {
            proof {
                assert(v@.subrange(from as int, v@.len() as int)[i - from] == v@[i as int]);
                assert(!all_digits(v@.subrange(from as int, v@.len() as int)));
            }
            return None;
        }
        let d = (cu - 48) as u128;
        proof {
            assert(v@.subrange(from as int, i + 1 as int) =~= v@.subrange(
                from as int,
                i as int,
            ).push(v@[i as int]));
            lemma_digits_val_push(v@.subrange(from as int, i as int), v@[i as int]);
            lemma_digits_val_nonneg(v@.subrange(from as int, i as int));
        }
        if !over {
            match acc.checked_mul(10) {
                Some(m) => {
                    match m.checked_add(d) {
                        Some(s) => {
                            acc = s;
                        },
                        None => {
                            over = true;
                        },
                    }
                },
                None => {
                    over = true;
                },
            }
        }
        i = i + 1;
    }
    if over {
        None
    } else {
        Some(acc)
    }
}

/// Parses a whole character vector as an unsigned decimal literal,
/// returning exactly its mathematical value when it is well formed and
/// fits in a `u128`.
pub fn parse_u128_lit(v: &Vec<char>) -> (r: Option<u128>)
    ensures
        r is Some <==> parses_as_u128(v@),
        r matches Some(x) ==> x == unsigned_literal_val(v@),
{
    let from: usize = if v.len() > 0 && v[0] == '+' {
        1
    } else {
        0
    };
    proof {
        assert(unsigned_body(v@) =~= v@.subrange(from as int, v@.len() as int));
    }
    parse_digits_u128(v, from)
}

/// Parses a whole character vector as a signed decimal literal,
/// returning exactly its mathematical value when it is well formed and
/// fits in an `i128`.
pub fn parse_i128_lit(v: &Vec<char>) -> (r: Option<i128>)
    ensures
        r is Some <==> parses_as_i128(v@),
        r matches Some(x) ==> x == signed_literal_val(v@),
{
    let neg = v.len() > 0 && v[0] == '-';
    let from: usize = if v.len() > 0 && (v[0] == '+' || v[0] == '-') {
        1
    } else {
        0
    };
    proof {
        assert(signed_body(v@) =~= v@.subrange(from as int, v@.len() as int));
    }
    match parse_digits_u128(v, from) {
        None => None,
        Some(mag) => {
            proof {
                lemma_digits_val_nonneg(signed_body(v@));
            }
            if neg {
                if mag <= i128::MAX as u128 {
                    Some(-(mag as i128))
                } else if mag == (i128::MAX as u128) + 1 {
                    Some(i128::MIN)
                } else {
                    None
                }
            } else {
                if mag <= i128::MAX as u128 {
                    Some(mag as i128)
                } else {
                    None
                }
            }
        },
    }
}

} // verus!
