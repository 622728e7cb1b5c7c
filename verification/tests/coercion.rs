//! Literal coercion through the binder: scalars, numeric vectors, and
//! the string-vector grammar with its escapes.

use clparser::{
    ArgTypes, ArgsSettings, CLPErrorKind, CLPInput, CLPResult, CLPVar, CommandLineParser,
    KwargSettings,
};

fn bind_one(ty: ArgTypes, tok: &str) -> Result<CLPResult, CLPErrorKind> {
    let parser = CommandLineParser::new(
        false,
        ArgsSettings::Args(vec![CLPInput { object_type: ty, name: "a".to_string() }]),
        KwargSettings { keyvalues: vec![] },
    );
    parser.parse(&vec!["prog".to_string(), tok.to_string()])
}

fn bound_value(ty: ArgTypes, tok: &str) -> CLPVar {
    let res = bind_one(ty, tok).expect("expected a successful bind");
    res.get(&"a".to_string()).expect("slot a should be bound").clone()
}

#[test]
fn int_exact_value() {
    assert_eq!(bound_value(ArgTypes::INT, "7"), CLPVar::Int(7));
    assert_eq!(bound_value(ArgTypes::INT, "-42"), CLPVar::Int(-42));
    assert_eq!(bound_value(ArgTypes::INT, "+13"), CLPVar::Int(13));
    assert_eq!(bound_value(ArgTypes::INT, "007"), CLPVar::Int(7));
    assert_eq!(bound_value(ArgTypes::INT, "0"), CLPVar::Int(0));
}

#[test]
fn int_extremes() {
    assert_eq!(
        bound_value(ArgTypes::INT, "170141183460469231731687303715884105727"),
        CLPVar::Int(i128::MAX)
    );
    assert_eq!(
        bound_value(ArgTypes::INT, "-170141183460469231731687303715884105728"),
        CLPVar::Int(i128::MIN)
    );
    assert!(matches!(
        bind_one(ArgTypes::INT, "170141183460469231731687303715884105728"),
        Err(CLPErrorKind::ParseError(_))
    ));
    assert!(matches!(
        bind_one(ArgTypes::INT, "-170141183460469231731687303715884105729"),
        Err(CLPErrorKind::ParseError(_))
    ));
}

#[test]
fn int_rejects_malformed() {
    assert!(matches!(bind_one(ArgTypes::INT, "x"), Err(CLPErrorKind::ParseError(_))));
    assert!(matches!(bind_one(ArgTypes::INT, ""), Err(CLPErrorKind::ParseError(_))));
    assert!(matches!(bind_one(ArgTypes::INT, "+"), Err(CLPErrorKind::ParseError(_))));
    assert!(matches!(bind_one(ArgTypes::INT, "1 2"), Err(CLPErrorKind::ParseError(_))));
    assert!(matches!(bind_one(ArgTypes::INT, "1.5"), Err(CLPErrorKind::ParseError(_))));
}

#[test]
fn uint_exact_value() {
    assert_eq!(bound_value(ArgTypes::UINT, "128"), CLPVar::UInt(128));
    assert_eq!(bound_value(ArgTypes::UINT, "+5"), CLPVar::UInt(5));
    assert_eq!(
        bound_value(ArgTypes::UINT, "340282366920938463463374607431768211455"),
        CLPVar::UInt(u128::MAX)
    );
}

#[test]
fn uint_rejects_minus_and_overflow() {
    assert!(matches!(bind_one(ArgTypes::UINT, "-1"), Err(CLPErrorKind::ParseError(_))));
    assert!(matches!(bind_one(ArgTypes::UINT, "-0"), Err(CLPErrorKind::ParseError(_))));
    assert!(matches!(
        bind_one(ArgTypes::UINT, "340282366920938463463374607431768211456"),
        Err(CLPErrorKind::ParseError(_))
    ));
}

#[test]
fn float_literals_accepted() {
    assert_eq!(
        bound_value(ArgTypes::FLOAT, "3.5"),
        CLPVar::Float(clparser::FloatLit { text: "3.5".to_string() })
    );
    for tok in ["1", "-0.5", ".5", "5.", "1e5", "1E-5", "+2.5e+10", "inf", "-Infinity", "NaN"] {
        let v = bound_value(ArgTypes::FLOAT, tok);
        assert_eq!(v, CLPVar::Float(clparser::FloatLit { text: tok.to_string() }));
        // the text round-trips through the platform float parser
        assert!(tok.parse::<f64>().is_ok());
    }
}

#[test]
fn float_literals_rejected() {
    for tok in ["", "abc", ".", "+", "1e", "1e+", "1.2.3", "infx", "nan5", "--1", "1 "] {
        assert!(
            matches!(bind_one(ArgTypes::FLOAT, tok), Err(CLPErrorKind::ParseError(_))),
            "{tok} should be rejected"
        );
        assert!(tok.parse::<f64>().is_err());
    }
}

#[test]
fn string_copied_verbatim() {
    assert_eq!(
        bound_value(ArgTypes::STRING, " spaced  token "),
        CLPVar::String(" spaced  token ".to_string())
    );
    assert_eq!(bound_value(ArgTypes::STRING, ""), CLPVar::String("".to_string()));
}

#[test]
fn vecint_exact_values() {
    assert_eq!(bound_value(ArgTypes::VECINT, "[7,9,11]"), CLPVar::VecInt(vec![7, 9, 11]));
    assert_eq!(bound_value(ArgTypes::VECINT, "[-1]"), CLPVar::VecInt(vec![-1]));
}

#[test]
fn vecint_rejects_bad_element() {
    assert!(matches!(bind_one(ArgTypes::VECINT, "[7,x,11]"), Err(CLPErrorKind::ParseError(_))));
    // an empty interior still splits into one empty piece, which is no integer
    assert!(matches!(bind_one(ArgTypes::VECINT, "[]"), Err(CLPErrorKind::ParseError(_))));
    assert!(matches!(bind_one(ArgTypes::VECINT, "[7,]"), Err(CLPErrorKind::ParseError(_))));
}

#[test]
fn vecint_rejects_bad_framing() {
    assert!(matches!(bind_one(ArgTypes::VECINT, "7,9"), Err(CLPErrorKind::ArgsError(_))));
    assert!(matches!(bind_one(ArgTypes::VECINT, ""), Err(CLPErrorKind::ArgsError(_))));
    assert!(matches!(bind_one(ArgTypes::VECINT, "[7,9"), Err(CLPErrorKind::ArgsError(_))));
}

#[test]
fn vecuint_values_and_rejection() {
    assert_eq!(bound_value(ArgTypes::VECUINT, "[0,128]"), CLPVar::VecUInt(vec![0, 128]));
    assert!(matches!(bind_one(ArgTypes::VECUINT, "[1,-2]"), Err(CLPErrorKind::ParseError(_))));
}

#[test]
fn vecfloat_values_and_rejection() {
    assert_eq!(
        bound_value(ArgTypes::VECFLOAT, "[1.5,2e3]"),
        CLPVar::VecFloat(vec![
            clparser::FloatLit { text: "1.5".to_string() },
            clparser::FloatLit { text: "2e3".to_string() },
        ])
    );
    assert!(matches!(bind_one(ArgTypes::VECFLOAT, "[1.5,x]"), Err(CLPErrorKind::ParseError(_))));
}

#[test]
fn vecstring_round_trip() {
    assert_eq!(
        bound_value(ArgTypes::VECSTRING, "['a','b']"),
        CLPVar::VecString(vec!["a".to_string(), "b".to_string()])
    );
    assert_eq!(bound_value(ArgTypes::VECSTRING, "[]"), CLPVar::VecString(vec![]));
    assert_eq!(bound_value(ArgTypes::VECSTRING, "['',]"), CLPVar::VecString(vec!["".to_string()]));
}

#[test]
fn vecstring_whitespace_between_elements() {
    assert_eq!(
        bound_value(ArgTypes::VECSTRING, "[ 'a' , 'b' ]"),
        CLPVar::VecString(vec!["a".to_string(), "b".to_string()])
    );
}

#[test]
fn vecstring_rejects_empty_and_unbracketed() {
    assert!(matches!(bind_one(ArgTypes::VECSTRING, ""), Err(CLPErrorKind::ArgsError(_))));
    assert!(matches!(bind_one(ArgTypes::VECSTRING, "xyz"), Err(CLPErrorKind::ArgsError(_))));
}

#[test]
fn vecstring_rejects_missing_open_quote() {
    // a comma where an element's opening quote is expected
    assert!(matches!(bind_one(ArgTypes::VECSTRING, "[,]"), Err(CLPErrorKind::ArgsError(_))));
}

#[test]
fn vecstring_escape_consumes_next_character() {
    // each `/` drops itself and copies the single following character
    assert_eq!(
        bound_value(ArgTypes::VECSTRING, "['/'/'',]"),
        CLPVar::VecString(vec!["''".to_string()])
    );
    assert_eq!(
        bound_value(ArgTypes::VECSTRING, "['a/,b']"),
        CLPVar::VecString(vec!["a,b".to_string()])
    );
    assert_eq!(
        bound_value(ArgTypes::VECSTRING, "['//']"),
        CLPVar::VecString(vec!["/".to_string()])
    );
}

#[test]
fn vecstring_escape_swallows_closing_quote() {
    // the escape turned the would-be closing quote into content, so the
    // element never terminates
    assert!(matches!(bind_one(ArgTypes::VECSTRING, "['\\'',]"), Err(CLPErrorKind::ParseError(_))));
}

#[test]
fn vecstring_escape_at_end_of_token() {
    assert!(matches!(bind_one(ArgTypes::VECSTRING, "['/]"), Err(CLPErrorKind::ParseError(_))));
}

#[test]
fn vecstring_unterminated_element() {
    assert!(matches!(bind_one(ArgTypes::VECSTRING, "['ab]"), Err(CLPErrorKind::ParseError(_))));
}

#[test]
fn vecstring_missing_separator() {
    assert!(matches!(bind_one(ArgTypes::VECSTRING, "['a''b']"), Err(CLPErrorKind::ParseError(_))));
}

#[test]
fn coercion_error_messages_cite_the_offender() {
    match bind_one(ArgTypes::UINT, "-128") {
        Err(CLPErrorKind::ParseError(msg)) => {
            assert_eq!(msg, "unable to parse \"-128\" as unsigned integer".to_string());
        }
        other => panic!("expected a parse error, got {:?}", other),
    }
    match bind_one(ArgTypes::VECINT, "[7,x,11]") {
        Err(CLPErrorKind::ParseError(msg)) => {
            assert_eq!(msg, "Expected INT got \"x\" in arg [7,x,11]".to_string());
        }
        other => panic!("expected a parse error, got {:?}", other),
    }
    match bind_one(ArgTypes::VECINT, "7,9") {
        Err(CLPErrorKind::ArgsError(msg)) => {
            assert_eq!(msg, "Expected [...INT...] got \"7,9\"".to_string());
        }
        other => panic!("expected an args error, got {:?}", other),
    }
    match bind_one(ArgTypes::VECFLOAT, "[1.5,x]") {
        Err(CLPErrorKind::ParseError(msg)) => {
            assert_eq!(msg, "Expected FLOAT got \"x\" in arg [1.5,x]".to_string());
        }
        other => panic!("expected a parse error, got {:?}", other),
    }
}

#[test]
fn vecstring_error_messages_cite_character_and_position() {
    match bind_one(ArgTypes::VECSTRING, "[,]") {
        Err(CLPErrorKind::ArgsError(msg)) => {
            assert_eq!(msg, "expected ' got , at index 1 of the argument [,]".to_string());
        }
        other => panic!("expected an args error, got {:?}", other),
    }
    match bind_one(ArgTypes::VECSTRING, "['a'x]") {
        Err(CLPErrorKind::ParseError(msg)) => {
            assert_eq!(msg, "expected , got x at index 4 of the argument ['a'x]".to_string());
        }
        other => panic!("expected a parse error, got {:?}", other),
    }
    match bind_one(ArgTypes::VECSTRING, "['ab]") {
        Err(CLPErrorKind::ParseError(msg)) => {
            assert_eq!(msg, "expected ' got End Of Argument ['ab]".to_string());
        }
        other => panic!("expected a parse error, got {:?}", other),
    }
    match bind_one(ArgTypes::VECSTRING, "['/]") {
        Err(CLPErrorKind::ParseError(msg)) => {
            assert_eq!(msg, "unexpected / at the end of the argument ['/]".to_string());
        }
        other => panic!("expected a parse error, got {:?}", other),
    }
}
