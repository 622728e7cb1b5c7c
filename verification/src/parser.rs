//! The binder: drives the positional schema over the raw token stream
//! and produces a fully bound result or a structured error.
//!
//! The functions [`bind_fixed`], [`bind_repeated`], [`bind_none`] and
//! [`bind_spec`] form the complete functional model of the binder;
//! [`CommandLineParser::parse`] is proved to return exactly what the
//! model prescribes, for every input.

use vstd::prelude::*;
use vstd::string::StringExecFns;
use crate::coerce::coerce;
use crate::coerce::concat2;
use crate::coerce::concat4;
use crate::coerce::match_arg;
use crate::numeric::dec_str_of;
use crate::numeric::usize_to_string;
use crate::types::ArgTypes;
use crate::types::ArgsModel;
use crate::types::ArgsSettings;
use crate::types::BindModel;
use crate::types::CLPErrorKind;
use crate::types::CLPResult;
use crate::types::CLPVar;
use crate::types::ErrTag;
use crate::types::ErrModel;
use crate::types::KwargSettings;
use crate::types::VarModel;
use crate::types::entries_view;
use crate::types::slot_desc;

verus! {

/// The message citing a keyword token found while the named slot was
/// still waiting for its value.
pub open spec fn expected_got_msg(slot: (ArgTypes, Seq<char>), t: Seq<char>) -> Seq<char> {
    "Expected "@ + slot_desc(slot.0, slot.1) + " got "@ + t
}

/// The message citing the first slot left unfilled when the tokens ran
/// out.
pub open spec fn missing_input_msg(slot: (ArgTypes, Seq<char>)) -> Seq<char> {
    "Didn't get input for "@ + slot_desc(slot.0, slot.1)
}

/// The message citing a token present where the schema allows nothing.
pub open spec fn unexpected_input_msg(t: Seq<char>) -> Seq<char> {
    "Unexpected input "@ + t
}

/// The message of a bind given no tokens at all.
pub open spec fn no_invocation_msg() -> Seq<char> {
    "Didn't get an invocation token"@
}

/// The binder over a fixed slot list, from token `i` on.  `index`
/// counts the tokens already consumed.  A keyword interrupt while slots
/// are still unfilled is an args error; past the slots, keyword tokens
/// are consumed as bare toggles, and other tokens overflow into `def`
/// when `allow` permits.  Running out of tokens with unfilled slots is
/// an args error.
pub open spec fn bind_fixed(
    slots: Seq<(ArgTypes, Seq<char>)>,
    kw: Set<Seq<char>>,
    allow: bool,
    toks: Seq<Seq<char>>,
    i: int,
    index: int,
    vars: Seq<(Seq<char>, VarModel)>,
    def: Seq<Seq<char>>,
) -> Result<(Seq<(Seq<char>, VarModel)>, Seq<Seq<char>>), ErrModel>
    decreases toks.len() - i when 0 <= i
{
    if i >= toks.len() {
        if index < slots.len() {
            Err(ErrModel { tag: ErrTag::ArgsError, msg: missing_input_msg(slots[index]) })
        } else {
            Ok((vars, def))
        }
    } else {
        let t = toks[i];
        if kw.contains(t) {
            if index < slots.len() {
                Err(ErrModel { tag: ErrTag::ArgsError, msg: expected_got_msg(slots[index], t) })
            } else {
                bind_fixed(slots, kw, allow, toks, i + 1, index + 1, vars, def)
            }
        } else if index < slots.len() {
            match coerce(slots[index].0, t) {
                Ok(v) => bind_fixed(
                    slots,
                    kw,
                    allow,
                    toks,
                    i + 1,
                    index + 1,
                    vars.push((slots[index].1, v)),
                    def,
                ),
                Err(e) => Err(e),
            }
        } else if allow {
            bind_fixed(slots, kw, allow, toks, i + 1, index + 1, vars, def.push(t))
        } else {
            Err(ErrModel { tag: ErrTag::Error, msg: unexpected_input_msg(t) })
        }
    }
}

/// The binder over one repeated slot, from token `i` on.  While
/// `inlist` holds, each token is coerced and stored under the slot name
/// suffixed with `index`; the first keyword interrupt ends positional
/// consumption permanently.  `index` keeps counting every token so the
/// numbering stays continuous.
pub open spec fn bind_repeated(
    ty: ArgTypes,
    name: Seq<char>,
    kw: Set<Seq<char>>,
    allow: bool,
    toks: Seq<Seq<char>>,
    i: int,
    index: int,
    inlist: bool,
    vars: Seq<(Seq<char>, VarModel)>,
    def: Seq<Seq<char>>,
) -> Result<(Seq<(Seq<char>, VarModel)>, Seq<Seq<char>>), ErrModel>
    decreases toks.len() - i when 0 <= i
{
    if i >= toks.len() {
        Ok((vars, def))
    } else {
        let t = toks[i];
        let toggle = kw.contains(t);
        if inlist && !toggle {
            match coerce(ty, t) {
                Ok(v) => bind_repeated(
                    ty,
                    name,
                    kw,
                    allow,
                    toks,
                    i + 1,
                    index + 1,
                    true,
                    vars.push((name + dec_str_of(index as nat), v)),
                    def,
                ),
                Err(e) => Err(e),
            }
        } else if toggle {
            bind_repeated(ty, name, kw, allow, toks, i + 1, index + 1, false, vars, def)
        } else if allow {
            bind_repeated(ty, name, kw, allow, toks, i + 1, index + 1, false, vars, def.push(t))
        } else {
            Err(ErrModel { tag: ErrTag::Error, msg: unexpected_input_msg(t) })
        }
    }
}

/// The binder with no positional schema, from token `i` on: keyword
/// tokens are consumed as bare toggles, everything else overflows when
/// `allow` permits and is an error otherwise.
pub open spec fn bind_none(
    kw: Set<Seq<char>>,
    allow: bool,
    toks: Seq<Seq<char>>,
    i: int,
    def: Seq<Seq<char>>,
) -> Result<Seq<Seq<char>>, ErrModel>
    decreases toks.len() - i when 0 <= i
{
    if i >= toks.len() {
        Ok(def)
    } else if kw.contains(toks[i]) {
        bind_none(kw, allow, toks, i + 1, def)
    } else if allow {
        bind_none(kw, allow, toks, i + 1, def.push(toks[i]))
    } else {
        Err(ErrModel { tag: ErrTag::Error, msg: unexpected_input_msg(toks[i]) })
    }
}

/// What binding the token sequence `toks` against the schema yields:
/// the bound result, or the variant of the error.  The first token is
/// the invocation token and is never matched positionally; a missing
/// invocation token is an args error.
pub open spec fn bind_spec(
    allow: bool,
    am: ArgsModel,
    kw: Set<Seq<char>>,
    toks: Seq<Seq<char>>,
) -> Result<BindModel, ErrModel> {
    if toks.len() == 0 {
        Err(ErrModel { tag: ErrTag::ArgsError, msg: no_invocation_msg() })
    } else {
        let res = match am {
            ArgsModel::Fixed(slots) => bind_fixed(
                slots,
                kw,
                allow,
                toks,
                1,
                0,
                Seq::empty(),
                Seq::empty(),
            ),
            ArgsModel::Repeated(ty, name) => bind_repeated(
                ty,
                name,
                kw,
                allow,
                toks,
                1,
                0,
                true,
                Seq::empty(),
                Seq::empty(),
            ),
            ArgsModel::NoPositional => match bind_none(kw, allow, toks, 1, Seq::empty()) {
                Ok(def) => Ok((Seq::empty(), def)),
                Err(e) => Err(e),
            },
        };
        match res {
            Ok(p) => Ok(BindModel { arg0: toks[0], default: p.1, vars: p.0 }),
            Err(e) => Err(e),
        }
    }
}

/// Whether the executable outcome `r` is exactly what the model
/// outcome `m` prescribes: on success the same invocation token,
/// overflow sequence and bound entries in order; on failure the same
/// error variant carrying the same message.
pub open spec fn bind_result_matches(
    m: Result<BindModel, ErrModel>,
    r: Result<CLPResult, CLPErrorKind>,
) -> bool {
    match m {
        Ok(bm) => r matches Ok(res) && res@.arg0 == bm.arg0 && res@.default == bm.default
            && res@.vars == bm.vars,
        Err(em) => r matches Err(e) && e.tag() == em.tag && e.msg_view() == em.msg,
    }
}

/// The parser: whether extra tokens overflow, the positional schema,
/// and the keyword registry.  Immutable for the duration of a parse;
/// `parse` keeps no state between calls.
pub struct CommandLineParser {
    pub allow_more: bool,
    pub args: ArgsSettings,
    pub kwargs: KwargSettings,
}

impl CommandLineParser {
    /// Builds a parser from its three parts, unchanged.
    pub fn new(allow_more: bool, args: ArgsSettings, kwargs: KwargSettings) -> (p:
        CommandLineParser)
        ensures
            p.allow_more == allow_more,
            p.args == args,
            p.kwargs == kwargs,
    {
        CommandLineParser { allow_more, args, kwargs }
    }

    /// Binds the raw token sequence against the schema: returns exactly
    /// what [`bind_spec`] prescribes — on success a result whose
    /// invocation token, overflow sequence and bound entries are the
    /// model's, on failure an error of exactly the model's variant,
    /// carrying exactly the model's message.
    pub fn parse(&self, args: &Vec<String>) -> (r: Result<CLPResult, CLPErrorKind>)
        ensures
            bind_result_matches(
                bind_spec(self.allow_more, self.args@, self.kwargs.key_set(), args.deep_view()),
                r,
            ),
    {
        let ghost toks = args.deep_view();
        let ghost kw = self.kwargs.key_set();
        if args.len() == 0 {
            return Err(
                CLPErrorKind::ArgsError(String::from_str("Didn't get an invocation token")),
            );
        }
        let arg0 = args[0].clone();
        let mut vars: Vec<(String, CLPVar)> = Vec::new();
        let mut default: Vec<String> = Vec::new();
        let get_default = self.allow_more;
        proof {
            assert(default@.map_values(|s: String| s@) =~= Seq::<Seq<char>>::empty());
            assert(entries_view(vars@) =~= Seq::<(Seq<char>, VarModel)>::empty());
        }

        match &self.args {
            ArgsSettings::Args(arguments) => {
                let ghost slots = arguments@.map_values(|inp: crate::types::CLPInput| inp@);
                let mut index: usize = 0;
                let mut i: usize = 1;
                while i < args.len()
                    invariant
                        1 <= i <= args@.len(),
                        index == i - 1,
                        toks == args.deep_view(),
                        kw == self.kwargs.key_set(),
                        slots == arguments@.map_values(|inp: crate::types::CLPInput| inp@),
                        self.args == ArgsSettings::Args(*arguments),
                        get_default == self.allow_more,
                        bind_fixed(
                            slots,
                            kw,
                            get_default,
                            toks,
                            i as int,
                            index as int,
                            entries_view(vars@),
                            default@.map_values(|s: String| s@),
                        ) == bind_fixed(
                            slots,
                            kw,
                            get_default,
                            toks,
                            1,
                            0,
                            Seq::empty(),
                            Seq::empty(),
                        ),
                    decreases args@.len() - i,
                {
                    let arg = &args[i];
                    proof {
                        assert(toks[i as int] == args@[i as int]@);
                    }
                    let toggle = self.kwargs.contains_key(arg);
                    if toggle {
                        if index < arguments.len() {
                            proof {
                                assert(slots[index as int] == arguments@[index as int]@);
                            }
                            let slot = arguments[index].describe();
                            return Err(
                                CLPErrorKind::ArgsError(
                                    concat4("Expected ", slot.as_str(), " got ", arg.as_str()),
                                ),
                            );
                        }
                    } else {
                        if index < arguments.len() {
                            proof {
                                assert(slots[index as int] == arguments@[index as int]@);
                            }
                            let result = match_arg(
                                &arguments[index].object_type,
                                &arguments[index].name,
                                arg,
                                &mut vars,
                            );
                            if let Some(err) = result {
                                return Err(err);
                            }
                            proof {
                                assert(entries_view(vars@) =~= entries_view(
                                    vars@.drop_last(),
                                ).push((vars@.last().0@, vars@.last().1@)));
                            }
                        } else if get_default {
                            proof {
                                assert((default@.push(args@[i as int])).map_values(
                                    |s: String| s@,
                                ) =~= default@.map_values(|s: String| s@).push(toks[i as int]));
                            }
                            default.push(arg.clone());
                        } else {
                            return Err(
                                CLPErrorKind::Error(concat2("Unexpected input ", arg.as_str())),
                            );
                        }
                    }
                    index = index + 1;
                    i = i + 1;
                }
                if index < arguments.len() {
                    proof {
                        assert(slots[index as int] == arguments@[index as int]@);
                    }
                    let slot = arguments[index].describe();
                    return Err(
                        CLPErrorKind::ArgsError(
                            concat2("Didn't get input for ", slot.as_str()),
                        ),
                    );
                }
            },
            ArgsSettings::ALL(expected) => {
                let mut index: usize = 0;
                let mut inlist = true;
                let mut i: usize = 1;
                while i < args.len()
                    invariant
                        1 <= i <= args@.len(),
                        index == i - 1,
                        toks == args.deep_view(),
                        kw == self.kwargs.key_set(),
                        self.args == ArgsSettings::ALL(*expected),
                        get_default == self.allow_more,
                        bind_repeated(
                            expected.object_type,
                            expected.name@,
                            kw,
                            get_default,
                            toks,
                            i as int,
                            index as int,
                            inlist,
                            entries_view(vars@),
                            default@.map_values(|s: String| s@),
                        ) == bind_repeated(
                            expected.object_type,
                            expected.name@,
                            kw,
                            get_default,
                            toks,
                            1,
                            0,
                            true,
                            Seq::empty(),
                            Seq::empty(),
                        ),
                    decreases args@.len() - i,
                {
                    let arg = &args[i];
                    proof {
                        assert(toks[i as int] == args@[i as int]@);
                    }
                    let toggle = self.kwargs.contains_key(arg);
                    if toggle {
                        inlist = false;
                    }
                    if inlist {
                        let mut name = expected.name.clone();
                        let num = usize_to_string(index);
                        name.append(num.as_str());
                        let result = match_arg(&expected.object_type, &name, arg, &mut vars);
                        if let Some(err) = result {
                            return Err(err);
                        }
                        proof {
                            assert(entries_view(vars@) =~= entries_view(
                                vars@.drop_last(),
                            ).push((vars@.last().0@, vars@.last().1@)));
                        }
                    } else {
                        if !toggle && get_default {
                            proof {
                                assert((default@.push(args@[i as int])).map_values(
                                    |s: String| s@,
                                ) =~= default@.map_values(|s: String| s@).push(toks[i as int]));
                            }
                            default.push(arg.clone());
                        } else if !toggle {
                            return Err(
                                CLPErrorKind::Error(concat2("Unexpected input ", arg.as_str())),
                            );
                        }
                    }
                    index = index + 1;
                    i = i + 1;
                }
            },
            ArgsSettings::NONE => {
                let mut i: usize = 1;
                while i < args.len()
                    invariant
                        1 <= i <= args@.len(),
                        toks == args.deep_view(),
                        kw == self.kwargs.key_set(),
                        self.args == ArgsSettings::NONE,
                        get_default == self.allow_more,
                        vars@.len() == 0,
                        bind_none(
                            kw,
                            get_default,
                            toks,
                            i as int,
                            default@.map_values(|s: String| s@),
                        ) == bind_none(kw, get_default, toks, 1, Seq::empty()),
                    decreases args@.len() - i,
                {
                    let arg = &args[i];
                    proof {
                        assert(toks[i as int] == args@[i as int]@);
                    }
                    let toggle = self.kwargs.contains_key(arg);
                    if !toggle {
                        if get_default {
                            proof {
                                assert((default@.push(args@[i as int])).map_values(
                                    |s: String| s@,
                                ) =~= default@.map_values(|s: String| s@).push(toks[i as int]));
                            }
                            default.push(arg.clone());
                        } else {
                            return Err(
                                CLPErrorKind::Error(concat2("Unexpected input ", arg.as_str())),
                            );
                        }
                    }
                    i = i + 1;
                }
            },
        }

        let res = CLPResult { arg0, default, args: vars };
        Ok(res)
    }
}

} // verus!
