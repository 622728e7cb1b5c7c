//! The binder's general laws, stated over the functional model and
//! proved once and for all: exact numeric coercion, fixed-schema arity
//! behaviour, overflow collection, keyword interrupts, and determinism
//! of binding.

use vstd::prelude::*;
use crate::coerce::coerce;
use crate::coerce::scalar_parse_msg;
use crate::floatlit::is_float_literal;
use crate::numeric::is_digit;
use crate::numeric::parses_as_i128;
use crate::numeric::parses_as_u128;
use crate::numeric::signed_literal_val;
use crate::numeric::unsigned_literal_val;
use crate::parser::bind_fixed;
use crate::parser::bind_repeated;
use crate::parser::bind_result_matches;
use crate::parser::bind_spec;
use crate::parser::expected_got_msg;
use crate::parser::missing_input_msg;
use crate::parser::unexpected_input_msg;
use crate::types::ArgTypes;
use crate::types::ArgsModel;
use crate::types::BindModel;
use crate::types::CLPErrorKind;
use crate::types::CLPResult;
use crate::types::ErrModel;
use crate::types::ErrTag;
use crate::types::VarModel;

verus! {

/// Coercing a well-formed, in-range signed literal as an integer
/// yields exactly its mathematical value; every other token is a parse
/// error.
pub proof fn lemma_integer_coercion_exact(t: Seq<char>)
    ensures
        parses_as_i128(t) ==> coerce(ArgTypes::INT, t) == Ok::<VarModel, ErrModel>(
            VarModel::Int(signed_literal_val(t)),
        ),
        !parses_as_i128(t) ==> coerce(ArgTypes::INT, t) == Err::<VarModel, ErrModel>(
            ErrModel { tag: ErrTag::ParseError, msg: scalar_parse_msg(t, "\" as integer"@) },
        ),
{
}

/// The same for unsigned literals; in particular a token with a
/// leading minus sign is always a parse error at unsigned type.
pub proof fn lemma_unsigned_coercion_exact(t: Seq<char>)
    ensures
        parses_as_u128(t) ==> coerce(ArgTypes::UINT, t) == Ok::<VarModel, ErrModel>(
            VarModel::UInt(unsigned_literal_val(t)),
        ),
        !parses_as_u128(t) ==> coerce(ArgTypes::UINT, t) == Err::<VarModel, ErrModel>(
            ErrModel {
                tag: ErrTag::ParseError,
                msg: scalar_parse_msg(t, "\" as unsigned integer"@),
            },
        ),
        t.len() > 0 && t[0] == '-' ==> (coerce(ArgTypes::UINT, t) matches Err(em) && em.tag
            == ErrTag::ParseError && em.msg == scalar_parse_msg(t, "\" as unsigned integer"@)),
{
    if t.len() > 0 && t[0] == '-' {
        assert(!is_digit(t[0]));
    }
}

/// Coercing a token that follows the floating-point literal grammar
/// yields exactly its text; every other token is a parse error.
pub proof fn lemma_float_coercion_exact(t: Seq<char>)
    ensures
        is_float_literal(t) ==> coerce(ArgTypes::FLOAT, t) == Ok::<VarModel, ErrModel>(
            VarModel::Float(t),
        ),
        !is_float_literal(t) ==> coerce(ArgTypes::FLOAT, t) == Err::<VarModel, ErrModel>(
            ErrModel { tag: ErrTag::ParseError, msg: scalar_parse_msg(t, "\" as float"@) },
        ),
{
}

/// Walking well-formed positional tokens while the stream is too short
/// for the slot list always ends in an args error.
proof fn lemma_fixed_under_rec(
    slots: Seq<(ArgTypes, Seq<char>)>,
    kw: Set<Seq<char>>,
    allow: bool,
    toks: Seq<Seq<char>>,
    i: int,
    vars: Seq<(Seq<char>, VarModel)>,
    def: Seq<Seq<char>>,
)
    requires
        1 <= i <= toks.len(),
        toks.len() - 1 < slots.len(),
        forall|j: int| i <= j < toks.len() ==> !kw.contains(#[trigger] toks[j]),
        forall|j: int| i <= j < toks.len() ==> coerce(slots[j - 1].0, #[trigger] toks[j]) is Ok,
    ensures
        bind_fixed(slots, kw, allow, toks, i, i - 1, vars, def) matches Err(em) && em.tag
            == ErrTag::ArgsError && em.msg == missing_input_msg(slots[toks.len() - 1]),
    decreases toks.len() - i,
{
    if i < toks.len() {
        let v = coerce(slots[i - 1].0, toks[i])->Ok_0;
        lemma_fixed_under_rec(slots, kw, allow, toks, i + 1, vars.push((slots[i - 1].1, v)), def);
    }
}

/// A `Fixed` schema of length `n`, given fewer than `n` positional
/// tokens — each well formed for its slot and none a keyword — fails
/// with an args error naming the first unfilled slot.
pub proof fn lemma_fixed_underflow(
    slots: Seq<(ArgTypes, Seq<char>)>,
    kw: Set<Seq<char>>,
    allow: bool,
    toks: Seq<Seq<char>>,
)
    requires
        toks.len() >= 1,
        toks.len() - 1 < slots.len(),
        forall|j: int| 1 <= j < toks.len() ==> !kw.contains(#[trigger] toks[j]),
        forall|j: int| 1 <= j < toks.len() ==> coerce(slots[j - 1].0, #[trigger] toks[j]) is Ok,
    ensures
        bind_spec(allow, ArgsModel::Fixed(slots), kw, toks) matches Err(em) && em.tag
            == ErrTag::ArgsError && em.msg == missing_input_msg(slots[toks.len() - 1]),
{
    lemma_fixed_under_rec(slots, kw, allow, toks, 1, Seq::empty(), Seq::empty());
}

/// With overflow disallowed, walking past the end of the slot list
/// always ends in an unexpected-input error.
proof fn lemma_fixed_over_rec(
    slots: Seq<(ArgTypes, Seq<char>)>,
    kw: Set<Seq<char>>,
    toks: Seq<Seq<char>>,
    i: int,
    vars: Seq<(Seq<char>, VarModel)>,
    def: Seq<Seq<char>>,
)
    requires
        1 <= i <= toks.len(),
        i <= slots.len() + 1,
        toks.len() - 1 > slots.len(),
        forall|j: int| i <= j < toks.len() ==> !kw.contains(#[trigger] toks[j]),
        forall|j: int|
            i <= j < toks.len() && j - 1 < slots.len() ==> coerce(
                slots[j - 1].0,
                #[trigger] toks[j],
            ) is Ok,
    ensures
        bind_fixed(slots, kw, false, toks, i, i - 1, vars, def) matches Err(em) && em.tag
            == ErrTag::Error && em.msg == unexpected_input_msg(toks[slots.len() + 1 as int]),
    decreases toks.len() - i,
{
    if i - 1 < slots.len() {
        let v = coerce(slots[i - 1].0, toks[i])->Ok_0;
        lemma_fixed_over_rec(slots, kw, toks, i + 1, vars.push((slots[i - 1].1, v)), def);
    }
}

/// A `Fixed` schema of length `n` with overflow disallowed, given more
/// than `n` positional tokens — the first `n` well formed and none a
/// keyword — fails with an unexpected-input error naming the first
/// excess token.
pub proof fn lemma_fixed_overflow_rejected(
    slots: Seq<(ArgTypes, Seq<char>)>,
    kw: Set<Seq<char>>,
    toks: Seq<Seq<char>>,
)
    requires
        toks.len() >= 1,
        toks.len() - 1 > slots.len(),
        forall|j: int| 1 <= j < toks.len() ==> !kw.contains(#[trigger] toks[j]),
        forall|j: int|
            1 <= j < toks.len() && j - 1 < slots.len() ==> coerce(
                slots[j - 1].0,
                #[trigger] toks[j],
            ) is Ok,
    ensures
        bind_spec(false, ArgsModel::Fixed(slots), kw, toks) matches Err(em) && em.tag
            == ErrTag::Error && em.msg == unexpected_input_msg(toks[slots.len() + 1 as int]),
{
    lemma_fixed_over_rec(slots, kw, toks, 1, Seq::empty(), Seq::empty());
}

/// With overflow allowed, walking on from token `i` succeeds and
/// collects exactly the tokens past the slot list, in order.
proof fn lemma_fixed_allow_rec(
    slots: Seq<(ArgTypes, Seq<char>)>,
    kw: Set<Seq<char>>,
    toks: Seq<Seq<char>>,
    i: int,
    vars: Seq<(Seq<char>, VarModel)>,
    def: Seq<Seq<char>>,
)
    requires
        1 <= i <= toks.len(),
        toks.len() - 1 >= slots.len(),
        forall|j: int| i <= j < toks.len() ==> !kw.contains(#[trigger] toks[j]),
        forall|j: int|
            i <= j < toks.len() && j - 1 < slots.len() ==> coerce(
                slots[j - 1].0,
                #[trigger] toks[j],
            ) is Ok,
    ensures
        ({
            let lo = if i > slots.len() + 1 {
                i
            } else {
                slots.len() + 1 as int
            };
            bind_fixed(slots, kw, true, toks, i, i - 1, vars, def) matches Ok(p) && p.1 == def
                + toks.subrange(lo, toks.len() as int)
        }),
    decreases toks.len() - i,
{
    let lo = if i > slots.len() + 1 {
        i
    } else {
        slots.len() + 1 as int
    };
    if i >= toks.len() {
        assert(def + toks.subrange(lo, toks.len() as int) =~= def);
    } else if i - 1 < slots.len() {
        let v = coerce(slots[i - 1].0, toks[i])->Ok_0;
        lemma_fixed_allow_rec(slots, kw, toks, i + 1, vars.push((slots[i - 1].1, v)), def);
    } else {
        lemma_fixed_allow_rec(slots, kw, toks, i + 1, vars, def.push(toks[i]));
        assert(def.push(toks[i]) + toks.subrange(i + 1, toks.len() as int) =~= def + toks.subrange(
            i,
            toks.len() as int,
        ));
    }
}

/// A `Fixed` schema of length `n` with overflow allowed, given at
/// least `n` positional tokens — the first `n` well formed and none a
/// keyword — succeeds, and the overflow sequence is exactly the excess
/// tokens in arrival order.
pub proof fn lemma_fixed_overflow_allowed(
    slots: Seq<(ArgTypes, Seq<char>)>,
    kw: Set<Seq<char>>,
    toks: Seq<Seq<char>>,
)
    requires
        toks.len() >= 1,
        toks.len() - 1 >= slots.len(),
        forall|j: int| 1 <= j < toks.len() ==> !kw.contains(#[trigger] toks[j]),
        forall|j: int|
            1 <= j < toks.len() && j - 1 < slots.len() ==> coerce(
                slots[j - 1].0,
                #[trigger] toks[j],
            ) is Ok,
    ensures
        bind_spec(true, ArgsModel::Fixed(slots), kw, toks) matches Ok(m) && m.arg0 == toks[0]
            && m.default == toks.subrange(slots.len() + 1 as int, toks.len() as int),
{
    lemma_fixed_allow_rec(slots, kw, toks, 1, Seq::empty(), Seq::empty());
    assert(Seq::<Seq<char>>::empty() + toks.subrange(slots.len() + 1 as int, toks.len() as int)
        =~= toks.subrange(slots.len() + 1 as int, toks.len() as int));
}

/// Walking well-formed positional tokens up to the keyword at `k`
/// while slots are still unfilled there always ends in an args error.
proof fn lemma_fixed_kw_rec(
    slots: Seq<(ArgTypes, Seq<char>)>,
    kw: Set<Seq<char>>,
    allow: bool,
    toks: Seq<Seq<char>>,
    i: int,
    k: int,
    vars: Seq<(Seq<char>, VarModel)>,
    def: Seq<Seq<char>>,
)
    requires
        1 <= i <= k < toks.len(),
        k - 1 < slots.len(),
        kw.contains(toks[k]),
        forall|j: int| i <= j < k ==> !kw.contains(#[trigger] toks[j]),
        forall|j: int| i <= j < k ==> coerce(slots[j - 1].0, #[trigger] toks[j]) is Ok,
    ensures
        bind_fixed(slots, kw, allow, toks, i, i - 1, vars, def) matches Err(em) && em.tag
            == ErrTag::ArgsError && em.msg == expected_got_msg(slots[k - 1], toks[k]),
    decreases k - i,
{
    if i < k {
        let v = coerce(slots[i - 1].0, toks[i])->Ok_0;
        lemma_fixed_kw_rec(slots, kw, allow, toks, i + 1, k, vars.push((slots[i - 1].1, v)), def);
    }
}

/// A token exactly matching a registered keyword, appearing before all
/// `Fixed` slots are filled and preceded only by well-formed positional
/// tokens, always produces an args error naming the unfilled slot and
/// the flag token — whatever the overflow setting, and however valid
/// the flag itself is.
pub proof fn lemma_fixed_keyword_interrupt(
    slots: Seq<(ArgTypes, Seq<char>)>,
    kw: Set<Seq<char>>,
    allow: bool,
    toks: Seq<Seq<char>>,
    k: int,
)
    requires
        1 <= k < toks.len(),
        k - 1 < slots.len(),
        kw.contains(toks[k]),
        forall|j: int| 1 <= j < k ==> !kw.contains(#[trigger] toks[j]),
        forall|j: int| 1 <= j < k ==> coerce(slots[j - 1].0, #[trigger] toks[j]) is Ok,
    ensures
        bind_spec(allow, ArgsModel::Fixed(slots), kw, toks) matches Err(em) && em.tag
            == ErrTag::ArgsError && em.msg == expected_got_msg(slots[k - 1], toks[k]),
{
    lemma_fixed_kw_rec(slots, kw, allow, toks, 1, k, Seq::empty(), Seq::empty());
}

/// Whether a bound value only holds floating-point texts that follow
/// the literal grammar.  Callers converting stored texts into machine
/// floats rely on this.
pub open spec fn value_floats_wellformed(v: VarModel) -> bool {
    match v {
        VarModel::Float(t) => is_float_literal(t),
        VarModel::VecFloat(ts) => forall|j: int|
            0 <= j < ts.len() ==> is_float_literal(#[trigger] ts[j]),
        _ => true,
    }
}

/// Whether every bound entry holds only well-formed floating-point
/// texts.
pub open spec fn vars_floats_wellformed(vars: Seq<(Seq<char>, VarModel)>) -> bool {
    forall|j: int| 0 <= j < vars.len() ==> value_floats_wellformed(#[trigger] vars[j].1)
}

/// Every value the coercer produces holds only well-formed
/// floating-point texts.
proof fn lemma_coerce_floats_wellformed(ty: ArgTypes, t: Seq<char>)
    ensures
        coerce(ty, t) matches Ok(v) ==> value_floats_wellformed(v),
{
}

/// The fixed-slot walk preserves float well-formedness of the map.
proof fn lemma_fixed_floats_rec(
    slots: Seq<(ArgTypes, Seq<char>)>,
    kw: Set<Seq<char>>,
    allow: bool,
    toks: Seq<Seq<char>>,
    i: int,
    index: int,
    vars: Seq<(Seq<char>, VarModel)>,
    def: Seq<Seq<char>>,
)
    requires
        0 <= i,
        vars_floats_wellformed(vars),
    ensures
        bind_fixed(slots, kw, allow, toks, i, index, vars, def) matches Ok(p)
            ==> vars_floats_wellformed(p.0),
    decreases toks.len() - i,
{
    if i < toks.len() {
        let t = toks[i];
        if !kw.contains(t) && index < slots.len() && coerce(slots[index].0, t) is Ok {
            let v = coerce(slots[index].0, t)->Ok_0;
            lemma_coerce_floats_wellformed(slots[index].0, t);
            assert(vars_floats_wellformed(vars.push((slots[index].1, v))));
            lemma_fixed_floats_rec(
                slots,
                kw,
                allow,
                toks,
                i + 1,
                index + 1,
                vars.push((slots[index].1, v)),
                def,
            );
        } else {
            lemma_fixed_floats_rec(slots, kw, allow, toks, i + 1, index + 1, vars, def);
            lemma_fixed_floats_rec(slots, kw, allow, toks, i + 1, index + 1, vars, def.push(t));
        }
    }
}

/// The repeated-slot walk preserves float well-formedness of the map.
proof fn lemma_repeated_floats_rec(
    ty: ArgTypes,
    name: Seq<char>,
    kw: Set<Seq<char>>,
    allow: bool,
    toks: Seq<Seq<char>>,
    i: int,
    index: int,
    inlist: bool,
    vars: Seq<(Seq<char>, VarModel)>,
    def: Seq<Seq<char>>,
)
    requires
        0 <= i,
        vars_floats_wellformed(vars),
    ensures
        bind_repeated(ty, name, kw, allow, toks, i, index, inlist, vars, def) matches Ok(p)
            ==> vars_floats_wellformed(p.0),
    decreases toks.len() - i,
{
    if i < toks.len() {
        let t = toks[i];
        let toggle = kw.contains(t);
        if inlist && !toggle && coerce(ty, t) is Ok {
            let v = coerce(ty, t)->Ok_0;
            lemma_coerce_floats_wellformed(ty, t);
            assert(vars_floats_wellformed(
                vars.push((name + crate::numeric::dec_str_of(index as nat), v)),
            ));
            lemma_repeated_floats_rec(
                ty,
                name,
                kw,
                allow,
                toks,
                i + 1,
                index + 1,
                true,
                vars.push((name + crate::numeric::dec_str_of(index as nat), v)),
                def,
            );
        } else {
            lemma_repeated_floats_rec(ty, name, kw, allow, toks, i + 1, index + 1, false, vars, def);
            lemma_repeated_floats_rec(
                ty,
                name,
                kw,
                allow,
                toks,
                i + 1,
                index + 1,
                false,
                vars,
                def.push(t),
            );
        }
    }
}

/// Every floating-point text a successful bind stores — scalar or
/// vector element — follows the literal grammar, so converting it with
/// a decimal floating-point parser cannot fail.
pub proof fn lemma_bound_floats_wellformed(
    allow: bool,
    am: ArgsModel,
    kw: Set<Seq<char>>,
    toks: Seq<Seq<char>>,
)
    ensures
        bind_spec(allow, am, kw, toks) matches Ok(m) ==> vars_floats_wellformed(m.vars),
{
    if toks.len() > 0 {
        match am {
            ArgsModel::Fixed(slots) => {
                lemma_fixed_floats_rec(slots, kw, allow, toks, 1, 0, Seq::empty(), Seq::empty());
            },
            ArgsModel::Repeated(ty, name) => {
                lemma_repeated_floats_rec(
                    ty,
                    name,
                    kw,
                    allow,
                    toks,
                    1,
                    0,
                    true,
                    Seq::empty(),
                    Seq::empty(),
                );
            },
            ArgsModel::NoPositional => {
            },
        }
    }
}

/// Binding is a pure function of the schema, the registry and the
/// tokens: two outcomes that both satisfy the binder's contract for
/// the same inputs agree — same success or failure, same invocation
/// token, overflow sequence and bound entries, same error variant and
/// message.
pub proof fn lemma_bind_idempotent(
    allow: bool,
    am: ArgsModel,
    kw: Set<Seq<char>>,
    toks: Seq<Seq<char>>,
    r1: Result<CLPResult, CLPErrorKind>,
    r2: Result<CLPResult, CLPErrorKind>,
)
    requires
        bind_result_matches(bind_spec(allow, am, kw, toks), r1),
        bind_result_matches(bind_spec(allow, am, kw, toks), r2),
    ensures
        r1 is Ok <==> r2 is Ok,
        r1 matches Ok(a) ==> (r2 matches Ok(b) && a@.arg0 == b@.arg0 && a@.default == b@.default
            && a@.vars == b@.vars),
        r1 matches Err(e1) ==> (r2 matches Err(e2) && e1.tag() == e2.tag() && e1.msg_view()
            == e2.msg_view()),
{
}

} // verus!
