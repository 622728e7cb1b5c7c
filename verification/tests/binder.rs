//! The binder's positional state machine: arity, overflow, keyword
//! interrupts, the repeated schema, the empty schema, and determinism.

use clparser::{
    ArgTypes, ArgsSettings, CLPErrorKind, CLPInput, CLPResult, CLPVar, CommandLineParser,
    KwargSettings, KwargTypes,
};

fn two_slot_parser(allow_more: bool) -> CommandLineParser {
    CommandLineParser::new(
        allow_more,
        ArgsSettings::Args(vec![
            CLPInput { object_type: ArgTypes::INT, name: "a".to_string() },
            CLPInput { object_type: ArgTypes::UINT, name: "b".to_string() },
        ]),
        KwargSettings { keyvalues: vec![] },
    )
}

fn toks(parts: &[&str]) -> Vec<String> {
    parts.iter().map(|p| p.to_string()).collect()
}

fn int_flag_registry() -> KwargSettings {
    KwargSettings {
        keyvalues: vec![(
            "--int".to_string(),
            KwargTypes::Important([
                "Integer".to_string(),
                "<int>".to_string(),
                "unexpected value {} expected an <int>".to_string(),
            ]),
        )],
    }
}

#[test]
fn fixed_underflow_is_args_error() {
    let parser = two_slot_parser(false);
    let r = parser.parse(&toks(&["prog", "0"]));
    assert!(matches!(r, Err(CLPErrorKind::ArgsError(_))));
}

#[test]
fn fixed_no_positional_tokens_is_args_error() {
    let parser = two_slot_parser(false);
    let r = parser.parse(&toks(&["prog"]));
    assert!(matches!(r, Err(CLPErrorKind::ArgsError(_))));
}

#[test]
fn fixed_overflow_rejected_without_allow_more() {
    let parser = two_slot_parser(false);
    let r = parser.parse(&toks(&["prog", "7", "9", "11"]));
    assert!(matches!(r, Err(CLPErrorKind::Error(_))));
}

#[test]
fn fixed_overflow_collected_with_allow_more() {
    let parser = two_slot_parser(true);
    let res = parser.parse(&toks(&["prog", "7", "9", "11", "13"])).expect("bind should succeed");
    assert_eq!(res.arg0, "prog".to_string());
    assert_eq!(res.default, vec!["11".to_string(), "13".to_string()]);
    assert_eq!(res.get(&"a".to_string()), Some(&CLPVar::Int(7)));
    assert_eq!(res.get(&"b".to_string()), Some(&CLPVar::UInt(9)));
}

#[test]
fn fixed_exact_arity_binds_all_slots() {
    let parser = two_slot_parser(false);
    let res = parser.parse(&toks(&["prog", "-3", "4"])).expect("bind should succeed");
    assert_eq!(res.arg0, "prog".to_string());
    assert!(res.default.is_empty());
    assert_eq!(res.get(&"a".to_string()), Some(&CLPVar::Int(-3)));
    assert_eq!(res.get(&"b".to_string()), Some(&CLPVar::UInt(4)));
    assert_eq!(res.get(&"c".to_string()), None);
}

#[test]
fn keyword_before_filled_slots_is_args_error() {
    let parser = CommandLineParser::new(
        false,
        ArgsSettings::Args(vec![CLPInput { object_type: ArgTypes::INT, name: "a".to_string() }]),
        int_flag_registry(),
    );
    let r = parser.parse(&toks(&["prog", "--int"]));
    assert!(matches!(r, Err(CLPErrorKind::ArgsError(_))));
}

#[test]
fn keyword_interrupt_wins_even_with_allow_more() {
    let parser = CommandLineParser::new(
        true,
        ArgsSettings::Args(vec![CLPInput { object_type: ArgTypes::INT, name: "a".to_string() }]),
        int_flag_registry(),
    );
    let r = parser.parse(&toks(&["prog", "--int", "5"]));
    assert!(matches!(r, Err(CLPErrorKind::ArgsError(_))));
}

#[test]
fn keyword_past_slots_is_consumed_as_toggle() {
    let parser = CommandLineParser::new(
        true,
        ArgsSettings::Args(vec![CLPInput { object_type: ArgTypes::INT, name: "a".to_string() }]),
        int_flag_registry(),
    );
    let res = parser.parse(&toks(&["prog", "5", "--int", "x"])).expect("bind should succeed");
    assert_eq!(res.get(&"a".to_string()), Some(&CLPVar::Int(5)));
    // the flag itself neither overflows nor binds; the later token overflows
    assert_eq!(res.default, vec!["x".to_string()]);
}

#[test]
fn repeated_slot_numbers_every_binding() {
    let parser = CommandLineParser::new(
        false,
        ArgsSettings::ALL(CLPInput { object_type: ArgTypes::INT, name: "x".to_string() }),
        KwargSettings { keyvalues: vec![] },
    );
    let res = parser.parse(&toks(&["prog", "10", "11", "12"])).expect("bind should succeed");
    assert_eq!(res.get(&"x0".to_string()), Some(&CLPVar::Int(10)));
    assert_eq!(res.get(&"x1".to_string()), Some(&CLPVar::Int(11)));
    assert_eq!(res.get(&"x2".to_string()), Some(&CLPVar::Int(12)));
    assert_eq!(res.get(&"x3".to_string()), None);
    assert_eq!(res.get(&"x".to_string()), None);
}

#[test]
fn repeated_slot_numbering_reaches_two_digits() {
    let parser = CommandLineParser::new(
        false,
        ArgsSettings::ALL(CLPInput { object_type: ArgTypes::UINT, name: "x".to_string() }),
        KwargSettings { keyvalues: vec![] },
    );
    let mut args = vec!["prog".to_string()];
    for k in 0..12u32 {
        args.push(k.to_string());
    }
    let res = parser.parse(&args).expect("bind should succeed");
    assert_eq!(res.get(&"x9".to_string()), Some(&CLPVar::UInt(9)));
    assert_eq!(res.get(&"x10".to_string()), Some(&CLPVar::UInt(10)));
    assert_eq!(res.get(&"x11".to_string()), Some(&CLPVar::UInt(11)));
}

#[test]
fn repeated_slot_keyword_ends_positional_mode_for_good() {
    let parser = CommandLineParser::new(
        true,
        ArgsSettings::ALL(CLPInput { object_type: ArgTypes::INT, name: "x".to_string() }),
        int_flag_registry(),
    );
    let res = parser.parse(&toks(&["prog", "10", "--int", "11"])).expect("bind should succeed");
    assert_eq!(res.get(&"x0".to_string()), Some(&CLPVar::Int(10)));
    // "11" arrives after the interrupt: it overflows instead of binding,
    // even though it is no keyword
    assert_eq!(res.get(&"x2".to_string()), None);
    assert_eq!(res.default, vec!["11".to_string()]);
}

#[test]
fn repeated_slot_after_interrupt_without_allow_more_is_error() {
    let parser = CommandLineParser::new(
        false,
        ArgsSettings::ALL(CLPInput { object_type: ArgTypes::INT, name: "x".to_string() }),
        int_flag_registry(),
    );
    let r = parser.parse(&toks(&["prog", "10", "--int", "11"]));
    assert!(matches!(r, Err(CLPErrorKind::Error(_))));
}

#[test]
fn repeated_slot_propagates_coercion_failure() {
    let parser = CommandLineParser::new(
        false,
        ArgsSettings::ALL(CLPInput { object_type: ArgTypes::INT, name: "x".to_string() }),
        KwargSettings { keyvalues: vec![] },
    );
    let r = parser.parse(&toks(&["prog", "10", "oops"]));
    assert!(matches!(r, Err(CLPErrorKind::ParseError(_))));
}

#[test]
fn none_schema_rejects_tokens_without_allow_more() {
    let parser = CommandLineParser::new(
        false,
        ArgsSettings::NONE,
        KwargSettings { keyvalues: vec![] },
    );
    let r = parser.parse(&toks(&["prog", "stray"]));
    assert!(matches!(r, Err(CLPErrorKind::Error(_))));
}

#[test]
fn none_schema_collects_overflow_with_allow_more() {
    let parser = CommandLineParser::new(
        true,
        ArgsSettings::NONE,
        KwargSettings { keyvalues: vec![] },
    );
    let res = parser.parse(&toks(&["prog", "s1", "s2"])).expect("bind should succeed");
    assert_eq!(res.arg0, "prog".to_string());
    assert_eq!(res.default, vec!["s1".to_string(), "s2".to_string()]);
    assert!(res.args.is_empty());
}

#[test]
fn none_schema_consumes_keyword_silently() {
    let parser = CommandLineParser::new(false, ArgsSettings::NONE, int_flag_registry());
    let res = parser.parse(&toks(&["prog", "--int"])).expect("bind should succeed");
    assert!(res.default.is_empty());
    assert!(res.args.is_empty());
}

#[test]
fn empty_token_sequence_is_args_error() {
    let parser = two_slot_parser(false);
    let r = parser.parse(&Vec::new());
    assert!(matches!(r, Err(CLPErrorKind::ArgsError(_))));
}

#[test]
fn first_token_never_matches_positionally() {
    let parser = CommandLineParser::new(
        false,
        ArgsSettings::Args(vec![CLPInput {
            object_type: ArgTypes::STRING,
            name: "s".to_string(),
        }]),
        KwargSettings { keyvalues: vec![] },
    );
    let res = parser.parse(&toks(&["prog", "value"])).expect("bind should succeed");
    assert_eq!(res.arg0, "prog".to_string());
    assert_eq!(res.get(&"s".to_string()), Some(&CLPVar::String("value".to_string())));
}

#[test]
fn binding_twice_yields_identical_results() {
    let parser = CommandLineParser::new(
        true,
        ArgsSettings::Args(vec![
            CLPInput { object_type: ArgTypes::VECSTRING, name: "v".to_string() },
            CLPInput { object_type: ArgTypes::INT, name: "n".to_string() },
        ]),
        int_flag_registry(),
    );
    let args = toks(&["prog", "['a','b']", "-5", "extra"]);
    let r1 = parser.parse(&args);
    let r2 = parser.parse(&args);
    assert_eq!(r1, r2);

    let bad = toks(&["prog", "[,]", "-5"]);
    let e1 = parser.parse(&bad);
    let e2 = parser.parse(&bad);
    assert_eq!(e1, e2);
    assert!(matches!(e1, Err(CLPErrorKind::ArgsError(_))));
}

#[test]
fn later_binding_under_same_name_wins() {
    let parser = CommandLineParser::new(
        false,
        ArgsSettings::Args(vec![
            CLPInput { object_type: ArgTypes::INT, name: "n".to_string() },
            CLPInput { object_type: ArgTypes::INT, name: "n".to_string() },
        ]),
        KwargSettings { keyvalues: vec![] },
    );
    let res = parser.parse(&toks(&["prog", "1", "2"])).expect("bind should succeed");
    assert_eq!(res.get(&"n".to_string()), Some(&CLPVar::Int(2)));
}

#[test]
fn error_messages_name_the_offender() {
    let parser = two_slot_parser(false);
    match parser.parse(&toks(&["prog", "zzz"])) {
        Err(CLPErrorKind::ParseError(msg)) => {
            assert_eq!(msg, "unable to parse \"zzz\" as integer".to_string());
        }
        other => panic!("expected a parse error, got {:?}", other),
    }
    match parser.parse(&toks(&["prog", "1", "2", "3"])) {
        Err(CLPErrorKind::Error(msg)) => assert_eq!(msg, "Unexpected input 3".to_string()),
        other => panic!("expected an unexpected-input error, got {:?}", other),
    }
}

#[test]
fn underflow_message_names_first_unfilled_slot() {
    let parser = two_slot_parser(false);
    match parser.parse(&toks(&["prog", "0"])) {
        Err(CLPErrorKind::ArgsError(msg)) => {
            assert_eq!(msg, "Didn't get input for UINT(b)".to_string());
        }
        other => panic!("expected an args error, got {:?}", other),
    }
}

#[test]
fn keyword_interrupt_message_names_slot_and_flag() {
    let parser = CommandLineParser::new(
        false,
        ArgsSettings::Args(vec![CLPInput { object_type: ArgTypes::INT, name: "a".to_string() }]),
        int_flag_registry(),
    );
    match parser.parse(&toks(&["prog", "--int"])) {
        Err(CLPErrorKind::ArgsError(msg)) => {
            assert_eq!(msg, "Expected INT(a) got --int".to_string());
        }
        other => panic!("expected an args error, got {:?}", other),
    }
}

#[test]
fn empty_token_sequence_message() {
    let parser = two_slot_parser(false);
    match parser.parse(&Vec::new()) {
        Err(CLPErrorKind::ArgsError(msg)) => {
            assert_eq!(msg, "Didn't get an invocation token".to_string());
        }
        other => panic!("expected an args error, got {:?}", other),
    }
}
