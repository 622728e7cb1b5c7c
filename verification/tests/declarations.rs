//! The declaration-side vocabulary and the error accessors.

use clparser::variables::{CLPExpectedType, CLPOutputType, CLPType};
use clparser::{ArgTypes, CLPErrorKind};

#[test]
fn expected_type_labels() {
    assert_eq!(CLPExpectedType::INT.label(), "INT".to_string());
    assert_eq!(CLPExpectedType::UINT.label(), "UINT".to_string());
    assert_eq!(CLPExpectedType::FLOAT.label(), "FLOAT".to_string());
    assert_eq!(CLPExpectedType::STRING.label(), "STRING".to_string());
    assert_eq!(CLPExpectedType::VECINT.label(), "[...INT...]".to_string());
    assert_eq!(CLPExpectedType::VECUINT.label(), "[...UINT...]".to_string());
    assert_eq!(CLPExpectedType::VECFLOAT.label(), "[...FLOAT...]".to_string());
    assert_eq!(CLPExpectedType::VECSTRING.label(), "[...STRING...]".to_string());
}

#[test]
fn arg_type_labels() {
    assert_eq!(ArgTypes::INT.label(), "INT".to_string());
    assert_eq!(ArgTypes::VECSTRING.label(), "[...STRING...]".to_string());
}

#[test]
fn declaration_describe() {
    let decl = CLPType { object_type: CLPExpectedType::VECINT, name: "xs".to_string() };
    assert_eq!(decl.describe(), "[...INT...](xs)".to_string());
}

#[test]
fn output_type_holds_plain_data() {
    let out = CLPOutputType::VecFloat(vec!["1.5".to_string(), "2e3".to_string()]);
    assert_eq!(
        out,
        CLPOutputType::VecFloat(vec!["1.5".to_string(), "2e3".to_string()])
    );
}

#[test]
fn error_message_accessor() {
    let e = CLPErrorKind::ParseError("bad token".to_string());
    assert_eq!(e.message(), &"bad token".to_string());
}
