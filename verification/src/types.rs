//! The schema and token model: positional types, schema slots, the keyword
//! registry, bound results and the error taxonomy.

use vstd::prelude::*;
use vstd::string::StringExecFns;

verus! {

/// The closed set of positional value types a schema slot may declare.
///
/// Each scalar tag has a corresponding one-level vector tag; there is no
/// deeper nesting.
#[derive(Clone, Copy, PartialEq, Eq, Structural, Debug)]
#[allow(non_camel_case_types)]
pub enum ArgTypes {
    INT,
    UINT,
    FLOAT,
    STRING,
    VECINT,
    VECUINT,
    VECFLOAT,
    VECSTRING,
}

/// A floating-point literal, kept as its validated source text.
///
/// The binder checks the text against the decimal floating-point grammar
/// and stores it verbatim; converting the text into a machine float is
/// left to unverified callers.
#[derive(Clone, PartialEq, Debug)]
pub struct FloatLit {
    pub text: String,
}

impl FloatLit {
    pub open spec fn view(&self) -> Seq<char> {
        self.text@
    }
}

/// The error taxonomy of the binder.  Every variant carries a
/// human-readable message naming the offending token.
#[derive(Debug, PartialEq)]
pub enum CLPErrorKind {
    Error(String),
    ParseError(String),
    KwargError(String),
    ArgsError(String),
}

/// One declared positional slot: its type and the name under which its
/// bound value is stored.
#[derive(Clone, PartialEq, Debug)]
pub struct CLPInput {
    pub object_type: ArgTypes,
    pub name: String,
}

impl View for CLPInput {
    type V = (ArgTypes, Seq<char>);

    open spec fn view(&self) -> (ArgTypes, Seq<char>) {
        (self.object_type, self.name@)
    }
}

/// The rendering of a slot as `LABEL(name)`, as error messages cite it.
pub open spec fn slot_desc(ty: ArgTypes, name: Seq<char>) -> Seq<char> {
    ty.label_spec() + "("@ + name + ")"@
}

impl CLPInput {
    /// Renders the slot as `LABEL(name)`, as error messages cite it.
    pub fn describe(&self) -> (r: String)
        ensures
            r@ == slot_desc(self.object_type, self.name@),
    {
        let mut s = self.object_type.label();
        crate::strutil::push_char(&mut s, '(');
        s.append(self.name.as_str());
        crate::strutil::push_char(&mut s, ')');
        proof {
            reveal_strlit("(");
            reveal_strlit(")");
            assert(self.object_type.label_spec().push('(') =~= self.object_type.label_spec()
                + "("@);
            assert((self.object_type.label_spec() + "("@ + self.name@).push(')')
                =~= self.object_type.label_spec() + "("@ + self.name@ + ")"@);
        }
        s
    }
}

/// The positional schema: no positional arguments at all, one repeated
/// slot that every leading non-keyword token binds to, or a fixed
/// ordered list of slots.
#[derive(Clone, PartialEq, Debug)]
#[allow(non_camel_case_types)]
pub enum ArgsSettings {
    NONE,
    ALL(CLPInput),
    Args(Vec<CLPInput>),
}

/// The spec-level shape of an [`ArgsSettings`].
pub enum ArgsModel {
    NoPositional,
    Repeated(ArgTypes, Seq<char>),
    Fixed(Seq<(ArgTypes, Seq<char>)>),
}

impl View for ArgsSettings {
    type V = ArgsModel;

    open spec fn view(&self) -> ArgsModel {
        match self {
            ArgsSettings::NONE => ArgsModel::NoPositional,
            ArgsSettings::ALL(inp) => ArgsModel::Repeated(inp.object_type, inp.name@),
            ArgsSettings::Args(v) => ArgsModel::Fixed(v@.map_values(|inp: CLPInput| inp@)),
        }
    }
}

/// Metadata of a registered keyword flag: its display label, placeholder
/// text and error-message template.  Only the flag's presence in the
/// registry steers the binder; the metadata is carried for callers.
#[derive(Clone, PartialEq, Debug)]
pub enum KwargTypes {
    Important([String; 3]),
    Optional([String; 3]),
    Toggle([String; 1]),
}

/// The keyword registry: the flag strings the binder recognizes, each
/// with its metadata.  Later entries with the same flag string do not
/// change which tokens are recognized.
#[derive(Clone, PartialEq, Debug)]
pub struct KwargSettings {
    pub keyvalues: Vec<(String, KwargTypes)>,
}

impl KwargSettings {
    /// The set of registered flag strings.
    pub open spec fn key_set(&self) -> Set<Seq<char>> {
        Set::new(
            |k: Seq<char>|
                exists|j: int|
                    0 <= j < self.keyvalues@.len() && self.keyvalues@[j].0@ == k,
        )
    }

    /// Whether `tok` exactly matches a registered flag string.
    pub fn contains_key(&self, tok: &String) -> (r: bool)
        ensures
            r == self.key_set().contains(tok@),
    {
        let mut j: usize = 0;
        while j < self.keyvalues.len()
            invariant
                j <= self.keyvalues@.len(),
                forall|k: int| 0 <= k < j ==> self.keyvalues@[k].0@ != tok@,
            decreases self.keyvalues@.len() - j,
        {
            if self.keyvalues[j].0 == *tok {
                return true;
            }
            j = j + 1;
        }
        false
    }
}

/// One bound value: the typed payload a positional token was coerced
/// into.
#[derive(Clone, PartialEq, Debug)]
pub enum CLPVar {
    Int(i128),
    UInt(u128),
    Float(FloatLit),
    String(String),
    VecInt(Vec<i128>),
    VecUInt(Vec<u128>),
    VecFloat(Vec<FloatLit>),
    VecString(Vec<String>),
}

/// The spec-level value of a [`CLPVar`]: mathematical integers, and
/// character sequences for strings and floating-point literal texts.
pub enum VarModel {
    Int(int),
    UInt(int),
    Float(Seq<char>),
    Str(Seq<char>),
    VecInt(Seq<int>),
    VecUInt(Seq<int>),
    VecFloat(Seq<Seq<char>>),
    VecStr(Seq<Seq<char>>),
}

impl View for CLPVar {
    type V = VarModel;

    open spec fn view(&self) -> VarModel {
        match self {
            CLPVar::Int(x) => VarModel::Int(*x as int),
            CLPVar::UInt(x) => VarModel::UInt(*x as int),
            CLPVar::Float(f) => VarModel::Float(f.text@),
            CLPVar::String(s) => VarModel::Str(s@),
            CLPVar::VecInt(v) => VarModel::VecInt(v@.map_values(|x: i128| x as int)),
            CLPVar::VecUInt(v) => VarModel::VecUInt(v@.map_values(|x: u128| x as int)),
            CLPVar::VecFloat(v) => VarModel::VecFloat(v@.map_values(|f: FloatLit| f.text@)),
            CLPVar::VecString(v) => VarModel::VecStr(v@.map_values(|s: String| s@)),
        }
    }
}

/// The spec-level content of one bound entry: the slot name and the
/// value stored under it.
pub open spec fn entry_view(p: (String, CLPVar)) -> (Seq<char>, VarModel) {
    (p.0@, p.1@)
}

/// The spec-level content of a whole binding list, in binding order.
pub open spec fn entries_view(s: Seq<(String, CLPVar)>) -> Seq<(Seq<char>, VarModel)> {
    s.map_values(|p: (String, CLPVar)| entry_view(p))
}

/// The name-to-value mapping described by an association list, later
/// entries overwriting earlier ones.
pub open spec fn assoc_map(s: Seq<(Seq<char>, VarModel)>) -> Map<Seq<char>, VarModel>
    decreases s.len(),
{
    if s.len() == 0 {
        Map::empty()
    } else {
        assoc_map(s.drop_last()).insert(s.last().0, s.last().1)
    }
}

/// The value stored under `k` in an association list, later entries
/// overwriting earlier ones.
pub open spec fn assoc_lookup(s: Seq<(Seq<char>, VarModel)>, k: Seq<char>) -> Option<VarModel>
    decreases s.len(),
{
    if s.len() == 0 {
        Option::None
    } else if s.last().0 == k {
        Option::Some(s.last().1)
    } else {
        assoc_lookup(s.drop_last(), k)
    }
}

/// `assoc_map` and `assoc_lookup` agree.
pub proof fn lemma_assoc_map_lookup(s: Seq<(Seq<char>, VarModel)>, k: Seq<char>)
    ensures
        assoc_map(s).contains_key(k) <==> assoc_lookup(s, k) is Some,
        assoc_lookup(s, k) matches Option::Some(v) ==> assoc_map(s)[k] == v,
    decreases s.len(),
{
    if s.len() > 0 {
        lemma_assoc_map_lookup(s.drop_last(), k);
    }
}

/// The successful outcome of a parse: the invocation token, the overflow
/// tokens in arrival order, and the bound values keyed by slot name.
#[derive(PartialEq, Debug)]
pub struct CLPResult {
    pub arg0: String,
    pub default: Vec<String>,
    pub args: Vec<(String, CLPVar)>,
}

/// The spec-level content of a [`CLPResult`]: the invocation token, the
/// overflow tokens, and the bound entries in binding order.
pub struct BindModel {
    pub arg0: Seq<char>,
    pub default: Seq<Seq<char>>,
    pub vars: Seq<(Seq<char>, VarModel)>,
}

impl BindModel {
    /// The name-to-value mapping of the bound entries, later bindings
    /// under the same name overwriting earlier ones.
    pub open spec fn vars_map(self) -> Map<Seq<char>, VarModel> {
        assoc_map(self.vars)
    }
}

impl View for CLPResult {
    type V = BindModel;

    open spec fn view(&self) -> BindModel {
        BindModel {
            arg0: self.arg0@,
            default: self.default@.map_values(|s: String| s@),
            vars: entries_view(self.args@),
        }
    }
}

impl CLPResult {
    /// The value bound under `name`, when there is one.  When several
    /// entries share a name, the one bound last wins.
    pub fn get(&self, name: &String) -> (r: Option<&CLPVar>)
        ensures
            match r {
                Option::Some(v) => self@.vars_map().contains_key(name@) && v@
                    == self@.vars_map()[name@],
                Option::None => !self@.vars_map().contains_key(name@),
            },
    {
        let ghost ev = entries_view(self.args@);
        proof {
            lemma_assoc_map_lookup(ev, name@);
            assert(ev.take(ev.len() as int) =~= ev);
        }
        let mut j = self.args.len();
        while j > 0
            invariant
                j <= self.args@.len(),
                ev == entries_view(self.args@),
                assoc_lookup(ev, name@) == assoc_lookup(ev.take(j as int), name@),
            decreases j,
        {
            j = j - 1;
            proof {
                assert(ev.take(j + 1 as int).drop_last() =~= ev.take(j as int));
                assert(ev.take(j + 1 as int).last() == ev[j as int]);
                assert(ev[j as int] == entry_view(self.args@[j as int]));
            }
            if self.args[j].0 == *name {
                proof {
                    lemma_assoc_map_lookup(ev, name@);
                    assert(assoc_lookup(ev.take(j + 1 as int), name@) == Option::Some(
                        self.args@[j as int].1@,
                    ));
                }
                return Option::Some(&self.args[j].1);
            }
        }
        proof {
            assert(ev.take(0) =~= Seq::<(Seq<char>, VarModel)>::empty());
        }
        Option::None
    }
}

/// The variant of a [`CLPErrorKind`], without its message.
pub enum ErrTag {
    Error,
    ParseError,
    KwargError,
    ArgsError,
}

/// The spec-level content of a [`CLPErrorKind`]: its variant and the
/// exact message it carries.  The binder's contracts pin both down for
/// every failing input.
pub struct ErrModel {
    pub tag: ErrTag,
    pub msg: Seq<char>,
}

impl CLPErrorKind {
    /// Which variant this error is.
    pub open spec fn tag(&self) -> ErrTag {
        match self {
            CLPErrorKind::Error(_) => ErrTag::Error,
            CLPErrorKind::ParseError(_) => ErrTag::ParseError,
            CLPErrorKind::KwargError(_) => ErrTag::KwargError,
            CLPErrorKind::ArgsError(_) => ErrTag::ArgsError,
        }
    }

    /// The message carried by the error.
    pub fn message(&self) -> (m: &String)
        ensures
            m@ == self.msg_view(),
    {
        match self {
            CLPErrorKind::Error(s) => s,
            CLPErrorKind::ParseError(s) => s,
            CLPErrorKind::KwargError(s) => s,
            CLPErrorKind::ArgsError(s) => s,
        }
    }

    /// The message carried by the error, as a sequence of characters.
    pub open spec fn msg_view(&self) -> Seq<char> {
        match self {
            CLPErrorKind::Error(s) => s@,
            CLPErrorKind::ParseError(s) => s@,
            CLPErrorKind::KwargError(s) => s@,
            CLPErrorKind::ArgsError(s) => s@,
        }
    }
}

} // verus!
