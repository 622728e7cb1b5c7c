//! The literal coercer: converts one raw token into one typed value of a
//! requested positional type, or fails with a typed error.
//!
//! Scalars use the verified numeric parsers; vectors use a
//! bracket-delimited, comma-separated layout.  String vectors follow a
//! character-level grammar of single-quoted elements with `/` as a
//! one-character escape, modeled by the [`vs_scan`] state machine.

use vstd::prelude::*;
use vstd::string::StringExecFns;
use crate::floatlit::check_float_lit;
use crate::floatlit::is_float_literal;
use crate::numeric::dec_str_of;
use crate::numeric::parse_i128_lit;
use crate::numeric::parse_u128_lit;
use crate::numeric::parses_as_i128;
use crate::numeric::parses_as_u128;
use crate::numeric::signed_literal_val;
use crate::numeric::unsigned_literal_val;
use crate::numeric::usize_to_string;
use crate::strutil::chars_to_string;
use crate::strutil::push_char;
use crate::strutil::str_to_chars;
use crate::types::ArgTypes;
use crate::types::CLPErrorKind;
use crate::types::CLPVar;
use crate::types::ErrModel;
use crate::types::ErrTag;
use crate::types::FloatLit;
use crate::types::VarModel;

verus! {

/// Whether a vector token is framed by `[` and `]`.
pub open spec fn bracket_ok(t: Seq<char>) -> bool {
    t.len() >= 2 && t[0] == '[' && t[t.len() - 1] == ']'
}

/// The characters strictly between the outer brackets.
pub open spec fn interior(t: Seq<char>) -> Seq<char> {
    t.subrange(1, t.len() - 1)
}

/// Splitting on commas: the tail-recursive worker.  `cur` is the piece
/// being accumulated and `acc` the pieces already finished.
pub open spec fn split_rec(s: Seq<char>, i: int, cur: Seq<char>, acc: Seq<Seq<char>>) -> Seq<
    Seq<char>,
>
    decreases s.len() - i when 0 <= i <= s.len()
{
    if i >= s.len() {
        acc.push(cur)
    } else if s[i] == ',' {
        split_rec(s, i + 1, Seq::empty(), acc.push(cur))
    } else {
        split_rec(s, i + 1, cur.push(s[i]), acc)
    }
}

/// The pieces of `s` between commas; an empty `s` yields one empty
/// piece, as splitting always yields one piece more than there are
/// commas.
pub open spec fn split_commas(s: Seq<char>) -> Seq<Seq<char>> {
    split_rec(s, 0, Seq::empty(), Seq::empty())
}

/// The message of a scalar coercion failure; `kind` is the closing
/// quote together with the name of the requested type.
pub open spec fn scalar_parse_msg(t: Seq<char>, kind: Seq<char>) -> Seq<char> {
    "unable to parse \""@ + t + kind
}

/// The message citing a vector token whose bracket framing is wrong:
/// the expected vector type's label and the raw token.
pub open spec fn vec_frame_msg(ty: ArgTypes, t: Seq<char>) -> Seq<char> {
    "Expected "@ + ty.label_spec() + " got \""@ + t + "\""@
}

/// The message citing the first element of a numeric vector that fails
/// its scalar grammar; `head` names the element type.
pub open spec fn vec_elem_msg(head: Seq<char>, piece: Seq<char>, t: Seq<char>) -> Seq<char> {
    head + piece + "\" in arg "@ + t
}

/// The index of the first piece that is no signed integer literal.
pub open spec fn first_bad_int(ps: Seq<Seq<char>>) -> int
    decreases ps.len(),
{
    if ps.len() == 0 {
        0
    } else if !parses_as_i128(ps[0]) {
        0
    } else {
        1 + first_bad_int(ps.drop_first())
    }
}

/// The index of the first piece that is no unsigned integer literal.
pub open spec fn first_bad_uint(ps: Seq<Seq<char>>) -> int
    decreases ps.len(),
{
    if ps.len() == 0 {
        0
    } else if !parses_as_u128(ps[0]) {
        0
    } else {
        1 + first_bad_uint(ps.drop_first())
    }
}

/// The index of the first piece that is no floating-point literal.
pub open spec fn first_bad_float(ps: Seq<Seq<char>>) -> int
    decreases ps.len(),
{
    if ps.len() == 0 {
        0
    } else if !is_float_literal(ps[0]) {
        0
    } else {
        1 + first_bad_float(ps.drop_first())
    }
}

/// A failing index preceded only by passing pieces is the first.
proof fn lemma_first_bad_int(ps: Seq<Seq<char>>, j: int)
    requires
        0 <= j < ps.len(),
        !parses_as_i128(ps[j]),
        forall|k: int| 0 <= k < j ==> parses_as_i128(#[trigger] ps[k]),
    ensures
        first_bad_int(ps) == j,
    decreases j,
{
    if j > 0 {
        assert forall|k: int| 0 <= k < j - 1 implies parses_as_i128(
            #[trigger] ps.drop_first()[k],
        ) by {
            assert(ps.drop_first()[k] == ps[k + 1]);
        }
        assert(ps.drop_first()[j - 1] == ps[j]);
        lemma_first_bad_int(ps.drop_first(), j - 1);
    }
}

/// A failing index preceded only by passing pieces is the first.
proof fn lemma_first_bad_uint(ps: Seq<Seq<char>>, j: int)
    requires
        0 <= j < ps.len(),
        !parses_as_u128(ps[j]),
        forall|k: int| 0 <= k < j ==> parses_as_u128(#[trigger] ps[k]),
    ensures
        first_bad_uint(ps) == j,
    decreases j,
{
    if j > 0 {
        assert forall|k: int| 0 <= k < j - 1 implies parses_as_u128(
            #[trigger] ps.drop_first()[k],
        ) by {
            assert(ps.drop_first()[k] == ps[k + 1]);
        }
        assert(ps.drop_first()[j - 1] == ps[j]);
        lemma_first_bad_uint(ps.drop_first(), j - 1);
    }
}

/// A failing index preceded only by passing pieces is the first.
proof fn lemma_first_bad_float(ps: Seq<Seq<char>>, j: int)
    requires
        0 <= j < ps.len(),
        !is_float_literal(ps[j]),
        forall|k: int| 0 <= k < j ==> is_float_literal(#[trigger] ps[k]),
    ensures
        first_bad_float(ps) == j,
    decreases j,
{
    if j > 0 {
        assert forall|k: int| 0 <= k < j - 1 implies is_float_literal(
            #[trigger] ps.drop_first()[k],
        ) by {
            assert(ps.drop_first()[k] == ps[k + 1]);
        }
        assert(ps.drop_first()[j - 1] == ps[j]);
        lemma_first_bad_float(ps.drop_first(), j - 1);
    }
}

/// The message citing the character found where an element's opening
/// quote was expected, with its character index in the token.
pub open spec fn vs_open_msg(c: char, i: int, t: Seq<char>) -> Seq<char> {
    "expected ' got "@ + seq![c] + " at index "@ + dec_str_of(i as nat) + " of the argument "@ + t
}

/// The message citing the character found where a separating comma was
/// expected, with its character index in the token.
pub open spec fn vs_sep_msg(c: char, i: int, t: Seq<char>) -> Seq<char> {
    "expected , got "@ + seq![c] + " at index "@ + dec_str_of(i as nat) + " of the argument "@ + t
}

/// The message citing an element whose closing quote never came.
pub open spec fn vs_unterminated_msg(t: Seq<char>) -> Seq<char> {
    "expected ' got End Of Argument "@ + t
}

/// The message citing an escape with no character left to consume.
pub open spec fn vs_escape_msg(t: Seq<char>) -> Seq<char> {
    "unexpected / at the end of the argument "@ + t
}

/// The three states of the string-vector scanner: before an element's
/// opening quote, inside a quoted element, and after its closing quote.
#[derive(Clone, Copy, PartialEq, Eq, Structural, Debug)]
pub enum VsState {
    ExpectOpen,
    InElem,
    ExpectSep,
}

/// The string-vector grammar, scanned character by character over the
/// whole token `s` (index 1 up to the closing bracket at `s.len() - 1`):
/// elements open and close with `'`; inside an element `/` escapes
/// exactly the next character; between elements whitespace is skipped
/// and a `,` separates; an element list may end without a trailing
/// comma.  A missing opening quote is an args error; an escape with no
/// character left, an unterminated element, and a missing separator are
/// parse errors, each citing the offending character or token.
pub open spec fn vs_scan(
    s: Seq<char>,
    i: int,
    st: VsState,
    buf: Seq<char>,
    acc: Seq<Seq<char>>,
) -> Result<Seq<Seq<char>>, ErrModel>
    decreases s.len() - i when 0 <= i
{
    if i >= s.len() - 1 {
        match st {
            VsState::InElem => Err(
                ErrModel { tag: ErrTag::ParseError, msg: vs_unterminated_msg(s) },
            ),
            _ => Ok(acc),
        }
    } else {
        let c = s[i];
        match st {
            VsState::ExpectOpen => {
                if c == ' ' {
                    vs_scan(s, i + 1, st, buf, acc)
                } else if c == '\'' {
                    vs_scan(s, i + 1, VsState::InElem, Seq::empty(), acc)
                } else {
                    Err(ErrModel { tag: ErrTag::ArgsError, msg: vs_open_msg(c, i, s) })
                }
            },
            VsState::InElem => {
                if c == '\'' {
                    vs_scan(s, i + 1, VsState::ExpectSep, Seq::empty(), acc.push(buf))
                } else if c == '/' {
                    if i + 1 >= s.len() - 1 {
                        Err(ErrModel { tag: ErrTag::ParseError, msg: vs_escape_msg(s) })
                    } else {
                        vs_scan(s, i + 2, st, buf.push(s[i + 1]), acc)
                    }
                } else {
                    vs_scan(s, i + 1, st, buf.push(c), acc)
                }
            },
            VsState::ExpectSep => {
                if c == ' ' {
                    vs_scan(s, i + 1, st, buf, acc)
                } else if c == ',' {
                    vs_scan(s, i + 1, VsState::ExpectOpen, buf, acc)
                } else {
                    Err(ErrModel { tag: ErrTag::ParseError, msg: vs_sep_msg(c, i, s) })
                }
            },
        }
    }
}

/// The elements encoded by a string-vector token, or the error its
/// malformation produces.
pub open spec fn vecstring_elems(t: Seq<char>) -> Result<Seq<Seq<char>>, ErrModel> {
    vs_scan(t, 1, VsState::ExpectOpen, Seq::empty(), Seq::empty())
}

/// What coercing the token `t` at type `ty` yields: the typed value, or
/// the error with its variant and exact message.  This is the complete
/// functional model of the literal coercer.
pub open spec fn coerce(ty: ArgTypes, t: Seq<char>) -> Result<VarModel, ErrModel> {
    match ty {
        ArgTypes::INT => if parses_as_i128(t) {
            Ok(VarModel::Int(signed_literal_val(t)))
        } else {
            Err(ErrModel { tag: ErrTag::ParseError, msg: scalar_parse_msg(t, "\" as integer"@) })
        },
        ArgTypes::UINT => if parses_as_u128(t) {
            Ok(VarModel::UInt(unsigned_literal_val(t)))
        } else {
            Err(
                ErrModel {
                    tag: ErrTag::ParseError,
                    msg: scalar_parse_msg(t, "\" as unsigned integer"@),
                },
            )
        },
        ArgTypes::FLOAT => if is_float_literal(t) {
            Ok(VarModel::Float(t))
        } else {
            Err(ErrModel { tag: ErrTag::ParseError, msg: scalar_parse_msg(t, "\" as float"@) })
        },
        ArgTypes::STRING => Ok(VarModel::Str(t)),
        ArgTypes::VECINT => if !bracket_ok(t) {
            Err(ErrModel { tag: ErrTag::ArgsError, msg: vec_frame_msg(ArgTypes::VECINT, t) })
        } else {
            let ps = split_commas(interior(t));
            if forall|j: int| 0 <= j < ps.len() ==> parses_as_i128(#[trigger] ps[j]) {
                Ok(VarModel::VecInt(ps.map_values(|p: Seq<char>| signed_literal_val(p))))
            } else {
                Err(
                    ErrModel {
                        tag: ErrTag::ParseError,
                        msg: vec_elem_msg("Expected INT got \""@, ps[first_bad_int(ps)], t),
                    },
                )
            }
        },
        ArgTypes::VECUINT => if !bracket_ok(t) {
            Err(ErrModel { tag: ErrTag::ArgsError, msg: vec_frame_msg(ArgTypes::VECUINT, t) })
        } else {
            let ps = split_commas(interior(t));
            if forall|j: int| 0 <= j < ps.len() ==> parses_as_u128(#[trigger] ps[j]) {
                Ok(VarModel::VecUInt(ps.map_values(|p: Seq<char>| unsigned_literal_val(p))))
            } else {
                Err(
                    ErrModel {
                        tag: ErrTag::ParseError,
                        msg: vec_elem_msg("Expected UINT got \""@, ps[first_bad_uint(ps)], t),
                    },
                )
            }
        },
        ArgTypes::VECFLOAT => if !bracket_ok(t) {
            Err(ErrModel { tag: ErrTag::ArgsError, msg: vec_frame_msg(ArgTypes::VECFLOAT, t) })
        } else {
            let ps = split_commas(interior(t));
            if forall|j: int| 0 <= j < ps.len() ==> is_float_literal(#[trigger] ps[j]) {
                Ok(VarModel::VecFloat(ps))
            } else {
                Err(
                    ErrModel {
                        tag: ErrTag::ParseError,
                        msg: vec_elem_msg("Expected FLOAT got \""@, ps[first_bad_float(ps)], t),
                    },
                )
            }
        },
        ArgTypes::VECSTRING => if !bracket_ok(t) {
            Err(ErrModel { tag: ErrTag::ArgsError, msg: vec_frame_msg(ArgTypes::VECSTRING, t) })
        } else {
            match vecstring_elems(t) {
                Ok(es) => Ok(VarModel::VecStr(es)),
                Err(em) => Err(em),
            }
        },
    }
}

impl ArgTypes {
    /// The display label of the type, as it appears in error messages.
    pub open spec fn label_spec(self) -> Seq<char> {
        match self {
            ArgTypes::INT => "INT"@,
            ArgTypes::UINT => "UINT"@,
            ArgTypes::FLOAT => "FLOAT"@,
            ArgTypes::STRING => "STRING"@,
            ArgTypes::VECINT => "[...INT...]"@,
            ArgTypes::VECUINT => "[...UINT...]"@,
            ArgTypes::VECFLOAT => "[...FLOAT...]"@,
            ArgTypes::VECSTRING => "[...STRING...]"@,
        }
    }

    /// Renders the display label of the type.
    pub fn label(&self) -> (r: String)
        ensures
            r@ == self.label_spec(),
    {
        match self {
            ArgTypes::INT => String::from_str("INT"),
            ArgTypes::UINT => String::from_str("UINT"),
            ArgTypes::FLOAT => String::from_str("FLOAT"),
            ArgTypes::STRING => String::from_str("STRING"),
            ArgTypes::VECINT => String::from_str("[...INT...]"),
            ArgTypes::VECUINT => String::from_str("[...UINT...]"),
            ArgTypes::VECFLOAT => String::from_str("[...FLOAT...]"),
            ArgTypes::VECSTRING => String::from_str("[...STRING...]"),
        }
    }
}

/// Glues two string slices together.
pub(crate) fn concat2(a: &str, b: &str) -> (r: String)
    ensures
        r@ == a@ + b@,
{
    let mut s = String::from_str(a);
    s.append(b);
    s
}

/// Glues three string slices together.
pub(crate) fn concat3(a: &str, b: &str, c: &str) -> (r: String)
    ensures
        r@ == a@ + b@ + c@,
{
    let mut s = String::from_str(a);
    s.append(b);
    s.append(c);
    s
}

/// Glues four string slices together.
pub(crate) fn concat4(a: &str, b: &str, c: &str, d: &str) -> (r: String)
    ensures
        r@ == a@ + b@ + c@ + d@,
{
    let mut s = String::from_str(a);
    s.append(b);
    s.append(c);
    s.append(d);
    s
}

/// Glues five string slices together.
pub(crate) fn concat5(a: &str, b: &str, c: &str, d: &str, e: &str) -> (r: String)
    ensures
        r@ == a@ + b@ + c@ + d@ + e@,
{
    let mut s = String::from_str(a);
    s.append(b);
    s.append(c);
    s.append(d);
    s.append(e);
    s
}

/// Renders a single character as a string.
fn char_to_string(c: char) -> (r: String)
    ensures
        r@ == seq![c],
{
    let mut s = String::new();
    push_char(&mut s, c);
    proof {
        assert(Seq::<char>::empty().push(c) =~= seq![c]);
    }
    s
}

/// Splits the interior of a bracket-framed token on commas.
fn split_pieces(cv: &Vec<char>) -> (ps: Vec<Vec<char>>)
    requires
        cv@.len() >= 2,
    ensures
        ps@.map_values(|p: Vec<char>| p@) == split_commas(interior(cv@)),
{
    let n = cv.len();
    let mut ps: Vec<Vec<char>> = Vec::new();
    let mut cur: Vec<char> = Vec::new();
    let mut i: usize = 1;
    proof {
        assert(ps@.map_values(|p: Vec<char>| p@) =~= Seq::<Seq<char>>::empty());
    }
    while i < n - 1
        invariant
            1 <= i <= n - 1,
            n == cv@.len(),
            n >= 2,
            split_commas(interior(cv@)) == split_rec(
                interior(cv@),
                i - 1,
                cur@,
                ps@.map_values(|p: Vec<char>| p@),
            ),
        decreases n - 1 - i,
    {
        proof {
            assert(interior(cv@)[i - 1] == cv@[i as int]);
        }
        if cv[i] == ',' {
            proof {
                assert((ps@.push(cur)).map_values(|p: Vec<char>| p@) =~= ps@.map_values(
                    |p: Vec<char>| p@,
                ).push(cur@));
            }
            ps.push(cur);
            cur = Vec::new();
        } else {
            cur.push(cv[i]);
        }
        i = i + 1;
    }
    proof {
        assert((ps@.push(cur)).map_values(|p: Vec<char>| p@) =~= ps@.map_values(
            |p: Vec<char>| p@,
        ).push(cur@));
    }
    ps.push(cur);
    ps
}

/// Parses every piece as a signed integer, or reports the index of the
/// first piece that fails.
fn parse_int_pieces(ps: &Vec<Vec<char>>) -> (r: Result<Vec<i128>, usize>)
    ensures
        match r {
            Ok(v) => v@.len() == ps@.len() && forall|j: int|
                0 <= j < ps@.len() ==> parses_as_i128(#[trigger] ps@[j]@) && v@[j]
                    == signed_literal_val(ps@[j]@),
            Err(j) => j < ps@.len() && !parses_as_i128(ps@[j as int]@) && forall|k: int|
                0 <= k < j ==> parses_as_i128(#[trigger] ps@[k]@),
        },
{
    let mut v: Vec<i128> = Vec::new();
    let mut j: usize = 0;
    while j < ps.len()
        invariant
            j <= ps@.len(),
            v@.len() == j,
            forall|k: int|
                0 <= k < j ==> parses_as_i128(#[trigger] ps@[k]@) && v@[k] == signed_literal_val(
                    ps@[k]@,
                ),
        decreases ps@.len() - j,
    {
        match parse_i128_lit(&ps[j]) {
            Some(x) => {
                v.push(x);
            },
            None => {
                return Err(j);
            },
        }
        j = j + 1;
    }
    Ok(v)
}

/// Parses every piece as an unsigned integer, or reports the index of
/// the first piece that fails.
fn parse_uint_pieces(ps: &Vec<Vec<char>>) -> (r: Result<Vec<u128>, usize>)
    ensures
        match r {
            Ok(v) => v@.len() == ps@.len() && forall|j: int|
                0 <= j < ps@.len() ==> parses_as_u128(#[trigger] ps@[j]@) && v@[j]
                    == unsigned_literal_val(ps@[j]@),
            Err(j) => j < ps@.len() && !parses_as_u128(ps@[j as int]@) && forall|k: int|
                0 <= k < j ==> parses_as_u128(#[trigger] ps@[k]@),
        },
{
    let mut v: Vec<u128> = Vec::new();
    let mut j: usize = 0;
    while j < ps.len()
        invariant
            j <= ps@.len(),
            v@.len() == j,
            forall|k: int|
                0 <= k < j ==> parses_as_u128(#[trigger] ps@[k]@) && v@[k] == unsigned_literal_val(
                    ps@[k]@,
                ),
        decreases ps@.len() - j,
    {
        match parse_u128_lit(&ps[j]) {
            Some(x) => {
                v.push(x);
            },
            None => {
                return Err(j);
            },
        }
        j = j + 1;
    }
    Ok(v)
}

/// Checks every piece against the floating-point literal grammar and
/// keeps its text, or reports the index of the first piece that fails.
fn parse_float_pieces(ps: &Vec<Vec<char>>) -> (r: Result<Vec<FloatLit>, usize>)
    ensures
        match r {
            Ok(v) => v@.len() == ps@.len() && forall|j: int|
                0 <= j < ps@.len() ==> is_float_literal(#[trigger] ps@[j]@) && v@[j].text@
                    == ps@[j]@,
            Err(j) => j < ps@.len() && !is_float_literal(ps@[j as int]@) && forall|k: int|
                0 <= k < j ==> is_float_literal(#[trigger] ps@[k]@),
        },
{
    let mut v: Vec<FloatLit> = Vec::new();
    let mut j: usize = 0;
    while j < ps.len()
        invariant
            j <= ps@.len(),
            v@.len() == j,
            forall|k: int|
                0 <= k < j ==> is_float_literal(#[trigger] ps@[k]@) && v@[k].text@ == ps@[k]@,
        decreases ps@.len() - j,
    {
        if check_float_lit(&ps[j]) {
            let text = chars_to_string(&ps[j]);
            v.push(FloatLit { text });
        } else {
            return Err(j);
        }
        j = j + 1;
    }
    Ok(v)
}

/// Runs the string-vector scanner over a bracket-framed token,
/// producing the elements or the error the grammar prescribes,
/// message included.
fn parse_vecstring(cv: &Vec<char>, arg: &String) -> (r: Result<Vec<String>, CLPErrorKind>)
    requires
        bracket_ok(cv@),
        arg@ == cv@,
    ensures
        match vecstring_elems(cv@) {
            Ok(es) => r matches Ok(v) && v@.map_values(|s: String| s@) == es,
            Err(em) => r matches Err(e) && e.tag() == em.tag && e.msg_view() == em.msg,
        },
{
    let n = cv.len();
    let mut out: Vec<String> = Vec::new();
    let mut buf: Vec<char> = Vec::new();
    let mut st = VsState::ExpectOpen;
    let mut i: usize = 1;
    proof {
        assert(out@.map_values(|s: String| s@) =~= Seq::<Seq<char>>::empty());
    }
    while i < n - 1
        invariant
            1 <= i <= n - 1,
            n == cv@.len(),
            n >= 2,
            arg@ == cv@,
            vecstring_elems(cv@) == vs_scan(
                cv@,
                i as int,
                st,
                buf@,
                out@.map_values(|s: String| s@),
            ),
        decreases n - 1 - i,
    {
        let c = cv[i];
        match st {
            VsState::ExpectOpen => {
                if c == ' ' {
                    i = i + 1;
                } else if c == '\'' {
                    st = VsState::InElem;
                    buf = Vec::new();
                    i = i + 1;
                } else {
                    let cs = char_to_string(c);
                    let num = usize_to_string(i);
                    let head = concat5(
                        "expected ' got ",
                        cs.as_str(),
                        " at index ",
                        num.as_str(),
                        " of the argument ",
                    );
                    let m = concat2(head.as_str(), arg.as_str());
                    proof {
                        assert(m@ == vs_open_msg(c, i as int, cv@));
                    }
                    return Err(CLPErrorKind::ArgsError(m));
                }
            },
            VsState::InElem => {
                if c == '\'' {
                    let el = chars_to_string(&buf);
                    proof {
                        assert((out@.push(el)).map_values(|s: String| s@) =~= out@.map_values(
                            |s: String| s@,
                        ).push(buf@));
                    }
                    out.push(el);
                    buf = Vec::new();
                    st = VsState::ExpectSep;
                    i = i + 1;
                } else if c == '/' {
                    if i + 1 >= n - 1 {
                        return Err(
                            CLPErrorKind::ParseError(
                                concat2("unexpected / at the end of the argument ", arg.as_str()),
                            ),
                        );
                    }
                    buf.push(cv[i + 1]);
                    i = i + 2;
                } else {
                    buf.push(c);
                    i = i + 1;
                }
            },
            VsState::ExpectSep => {
                if c == ' ' {
                    i = i + 1;
                } else if c == ',' {
                    st = VsState::ExpectOpen;
                    i = i + 1;
                } else {
                    let cs = char_to_string(c);
                    let num = usize_to_string(i);
                    let head = concat5(
                        "expected , got ",
                        cs.as_str(),
                        " at index ",
                        num.as_str(),
                        " of the argument ",
                    );
                    let m = concat2(head.as_str(), arg.as_str());
                    proof {
                        assert(m@ == vs_sep_msg(c, i as int, cv@));
                    }
                    return Err(CLPErrorKind::ParseError(m));
                }
            },
        }
    }
    match st {
        VsState::InElem => Err(
            CLPErrorKind::ParseError(
                concat2("expected ' got End Of Argument ", arg.as_str()),
            ),
        ),
        _ => Ok(out),
    }
}

/// Coerces the token `arg` at type `argument` and binds the value under
/// `var_name`: on success the pair is appended to `vars` and nothing is
/// returned; on failure `vars` is untouched and the error carries
/// exactly the variant and message [`coerce`] prescribes.
pub fn match_arg(
    argument: &ArgTypes,
    var_name: &String,
    arg: &String,
    vars: &mut Vec<(String, CLPVar)>,
) -> (r: Option<CLPErrorKind>)
    ensures
        match coerce(*argument, arg@) {
            Ok(vm) => r is None
                && final(vars)@.len() == old(vars)@.len() + 1
                && final(vars)@.drop_last() == old(vars)@
                && final(vars)@.last().0@ == var_name@
                && final(vars)@.last().1@ == vm,
            Err(em) => (r matches Some(e) && e.tag() == em.tag && e.msg_view() == em.msg)
                && final(vars)@ == old(vars)@,
        },
{
    let cv = str_to_chars(arg.as_str());
    match argument {
        ArgTypes::INT => {
            match parse_i128_lit(&cv) {
                Some(x) => {
                    vars.push((var_name.clone(), CLPVar::Int(x)));
                    proof {
                        assert(vars@.drop_last() =~= old(vars)@);
                    }
                    None
                },
                None => Some(
                    CLPErrorKind::ParseError(
                        concat3("unable to parse \"", arg.as_str(), "\" as integer"),
                    ),
                ),
            }
        },
        ArgTypes::UINT => {
            match parse_u128_lit(&cv) {
                Some(x) => {
                    vars.push((var_name.clone(), CLPVar::UInt(x)));
                    proof {
                        assert(vars@.drop_last() =~= old(vars)@);
                    }
                    None
                },
                None => Some(
                    CLPErrorKind::ParseError(
                        concat3("unable to parse \"", arg.as_str(), "\" as unsigned integer"),
                    ),
                ),
            }
        },
        ArgTypes::FLOAT => {
            if check_float_lit(&cv) {
                vars.push((var_name.clone(), CLPVar::Float(FloatLit { text: arg.clone() })));
                proof {
                    assert(vars@.drop_last() =~= old(vars)@);
                }
                None
            } else {
                Some(
                    CLPErrorKind::ParseError(
                        concat3("unable to parse \"", arg.as_str(), "\" as float"),
                    ),
                )
            }
        },
        ArgTypes::STRING => {
            vars.push((var_name.clone(), CLPVar::String(arg.clone())));
            proof {
                assert(vars@.drop_last() =~= old(vars)@);
            }
            None
        },
        ArgTypes::VECINT => {
            if cv.len() < 2 || !(cv[0] == '[' && cv[cv.len() - 1] == ']') {
                return Some(
                    CLPErrorKind::ArgsError(
                        concat5(
                            "Expected ",
                            argument.label().as_str(),
                            " got \"",
                            arg.as_str(),
                            "\"",
                        ),
                    ),
                );
            }
            let ps = split_pieces(&cv);
            match parse_int_pieces(&ps) {
                Ok(v) => {
                    proof {
                        let pm = split_commas(interior(arg@));
                        assert(v@.map_values(|x: i128| x as int) =~= pm.map_values(
                            |p: Seq<char>| signed_literal_val(p),
                        ));
                    }
                    vars.push((var_name.clone(), CLPVar::VecInt(v)));
                    proof {
                        assert(vars@.drop_last() =~= old(vars)@);
                    }
                    None
                },
                Err(j) => {
                    proof {
                        let pm = split_commas(interior(arg@));
                        assert forall|k: int| 0 <= k < j implies parses_as_i128(
                            #[trigger] pm[k],
                        ) by {
                            assert(pm[k] == ps@[k]@);
                        }
                        assert(pm[j as int] == ps@[j as int]@);
                        lemma_first_bad_int(pm, j as int);
                    }
                    let piece = chars_to_string(&ps[j]);
                    Some(
                        CLPErrorKind::ParseError(
                            concat4(
                                "Expected INT got \"",
                                piece.as_str(),
                                "\" in arg ",
                                arg.as_str(),
                            ),
                        ),
                    )
                },
            }
        },
        ArgTypes::VECUINT => {
            if cv.len() < 2 || !(cv[0] == '[' && cv[cv.len() - 1] == ']') {
                return Some(
                    CLPErrorKind::ArgsError(
                        concat5(
                            "Expected ",
                            argument.label().as_str(),
                            " got \"",
                            arg.as_str(),
                            "\"",
                        ),
                    ),
                );
            }
            let ps = split_pieces(&cv);
            match parse_uint_pieces(&ps) {
                Ok(v) => {
                    proof {
                        let pm = split_commas(interior(arg@));
                        assert(v@.map_values(|x: u128| x as int) =~= pm.map_values(
                            |p: Seq<char>| unsigned_literal_val(p),
                        ));
                    }
                    vars.push((var_name.clone(), CLPVar::VecUInt(v)));
                    proof {
                        assert(vars@.drop_last() =~= old(vars)@);
                    }
                    None
                },
                Err(j) => {
                    proof {
                        let pm = split_commas(interior(arg@));
                        assert forall|k: int| 0 <= k < j implies parses_as_u128(
                            #[trigger] pm[k],
                        ) by {
                            assert(pm[k] == ps@[k]@);
                        }
                        assert(pm[j as int] == ps@[j as int]@);
                        lemma_first_bad_uint(pm, j as int);
                    }
                    let piece = chars_to_string(&ps[j]);
                    Some(
                        CLPErrorKind::ParseError(
                            concat4(
                                "Expected UINT got \"",
                                piece.as_str(),
                                "\" in arg ",
                                arg.as_str(),
                            ),
                        ),
                    )
                },
            }
        },
        ArgTypes::VECFLOAT => {
            if cv.len() < 2 || !(cv[0] == '[' && cv[cv.len() - 1] == ']') {
                return Some(
                    CLPErrorKind::ArgsError(
                        concat5(
                            "Expected ",
                            argument.label().as_str(),
                            " got \"",
                            arg.as_str(),
                            "\"",
                        ),
                    ),
                );
            }
            let ps = split_pieces(&cv);
            match parse_float_pieces(&ps) {
                Ok(v) => {
                    proof {
                        let pm = split_commas(interior(arg@));
                        assert(v@.map_values(|f: FloatLit| f.text@) =~= pm);
                    }
                    vars.push((var_name.clone(), CLPVar::VecFloat(v)));
                    proof {
                        assert(vars@.drop_last() =~= old(vars)@);
                    }
                    None
                },
                Err(j) => {
                    proof {
                        let pm = split_commas(interior(arg@));
                        assert forall|k: int| 0 <= k < j implies is_float_literal(
                            #[trigger] pm[k],
                        ) by {
                            assert(pm[k] == ps@[k]@);
                        }
                        assert(pm[j as int] == ps@[j as int]@);
                        lemma_first_bad_float(pm, j as int);
                    }
                    let piece = chars_to_string(&ps[j]);
                    Some(
                        CLPErrorKind::ParseError(
                            concat4(
                                "Expected FLOAT got \"",
                                piece.as_str(),
                                "\" in arg ",
                                arg.as_str(),
                            ),
                        ),
                    )
                },
            }
        },
        ArgTypes::VECSTRING => {
            if cv.len() < 2 || !(cv[0] == '[' && cv[cv.len() - 1] == ']') {
                return Some(
                    CLPErrorKind::ArgsError(
                        concat5(
                            "Expected ",
                            argument.label().as_str(),
                            " got \"",
                            arg.as_str(),
                            "\"",
                        ),
                    ),
                );
            }
            match parse_vecstring(&cv, arg) {
                Ok(v) => {
                    vars.push((var_name.clone(), CLPVar::VecString(v)));
                    proof {
                        assert(vars@.drop_last() =~= old(vars)@);
                    }
                    None
                },
                Err(e) => Some(e),
            }
        },
    }
}

} // verus!
