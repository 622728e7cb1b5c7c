//! A standalone copy of the declaration-side vocabulary: an expected
//! type with a name, the output value shapes, and the error taxonomy.
//! This module is self-contained and shares nothing with the binder's
//! own types.

use vstd::prelude::*;
use vstd::string::StringExecFns;
use crate::strutil::push_char;

verus! {

/// The closed set of expected value types a declaration may carry.
#[derive(Clone, Copy, PartialEq, Eq, Structural, Debug)]
#[allow(non_camel_case_types)]
pub enum CLPExpectedType {
    INT,
    UINT,
    FLOAT,
    STRING,
    VECINT,
    VECUINT,
    VECFLOAT,
    VECSTRING,
}

impl CLPExpectedType {
    /// The display label of the type.
    pub open spec fn label_spec(self) -> Seq<char> {
        match self {
            CLPExpectedType::INT => "INT"@,
            CLPExpectedType::UINT => "UINT"@,
            CLPExpectedType::FLOAT => "FLOAT"@,
            CLPExpectedType::STRING => "STRING"@,
            CLPExpectedType::VECINT => "[...INT...]"@,
            CLPExpectedType::VECUINT => "[...UINT...]"@,
            CLPExpectedType::VECFLOAT => "[...FLOAT...]"@,
            CLPExpectedType::VECSTRING => "[...STRING...]"@,
        }
    }

    /// Renders the display label of the type.
    pub fn label(&self) -> (r: String)
        ensures
            r@ == self.label_spec(),
    {
        match self {
            CLPExpectedType::INT => String::from_str("INT"),
            CLPExpectedType::UINT => String::from_str("UINT"),
            CLPExpectedType::FLOAT => String::from_str("FLOAT"),
            CLPExpectedType::STRING => String::from_str("STRING"),
            CLPExpectedType::VECINT => String::from_str("[...INT...]"),
            CLPExpectedType::VECUINT => String::from_str("[...UINT...]"),
            CLPExpectedType::VECFLOAT => String::from_str("[...FLOAT...]"),
            CLPExpectedType::VECSTRING => String::from_str("[...STRING...]"),
        }
    }
}

/// One declared expected value: its type and its name.
#[derive(Clone, PartialEq, Debug)]
pub struct CLPType {
    pub object_type: CLPExpectedType,
    pub name: String,
}

impl CLPType {
    /// Renders the declaration as `LABEL(name)`.
    pub fn describe(&self) -> (r: String)
        ensures
            r@ == self.object_type.label_spec() + "("@ + self.name@ + ")"@,
    {
        let mut s = self.object_type.label();
        push_char(&mut s, '(');
        s.append(self.name.as_str());
        push_char(&mut s, ')');
        proof {
            reveal_strlit("(");
            reveal_strlit(")");
            assert(self.object_type.label_spec().push('(') =~= self.object_type.label_spec()
                + "("@);
            assert((self.object_type.label_spec() + "("@ + self.name@).push(')')
                =~= self.object_type.label_spec() + "("@ + self.name@ + ")"@);
        }
        s
    }
}

/// One produced value, kept as plain data; floating-point values are
/// carried as their validated literal text.
#[derive(Clone, PartialEq, Debug)]
pub enum CLPOutputType {
    Int(i128),
    UInt(u128),
    Float(String),
    String(String),
    VecInt(Vec<i128>),
    VecUInt(Vec<u128>),
    VecFloat(Vec<String>),
    VecString(Vec<String>),
}

/// The error taxonomy, as the declaration side names it.
#[derive(Clone, PartialEq, Debug)]
pub enum CLPErrorKind {
    Error(String),
    ParseError(String),
    KwargError(String),
    ArgsError(String),
}

} // verus!
