use piston_meta::json;
use piston_meta::parse_error_handler::ParseErrorHandler;
use piston_meta::ty::Type;
use piston_meta::{stderr_unwrap, MetaData, ParseError, Range, Rule, Syntax};
use std::sync::Arc;

/// A number property, with the number written as `Display` writes it.
fn num(name: &str, value: f64) -> MetaData {
    MetaData::F64(Arc::new(name.into()), Arc::new(format!("{}", value)))
}

#[test]
fn numbers() {
    let r = Range::empty(0);
    let s = json::write(&[r.wrap(num("x", 1.0)), r.wrap(num("y", 2.0)), r.wrap(num("z", 3.0))]).unwrap();
    assert_eq!(s, "\"x\":1,\n\"y\":2,\n\"z\":3\n");
}

#[test]
fn node() {
    let r = Range::empty(0);
    let s = json::write(&[
        r.wrap(MetaData::StartNode(Arc::new("pos".into()))),
        r.wrap(num("x", 1.0)),
        r.wrap(num("y", 2.0)),
        r.wrap(num("z", 3.0)),
        r.wrap(MetaData::EndNode(Arc::new("pos".into()))),
    ])
    .unwrap();
    assert_eq!(s, "\"pos\":{\n \"x\":1,\n \"y\":2,\n \"z\":3\n}\n");
}

#[test]
fn node2() {
    let r = Range::empty(0);
    let s = json::write(&[
        r.wrap(MetaData::StartNode(Arc::new("pos".into()))),
        r.wrap(num("x", 1.0)),
        r.wrap(MetaData::EndNode(Arc::new("pos".into()))),
        r.wrap(MetaData::StartNode(Arc::new("pos".into()))),
        r.wrap(num("x", 1.0)),
        r.wrap(MetaData::EndNode(Arc::new("pos".into()))),
    ])
    .unwrap();
    assert_eq!(s, "\"pos\":{\n \"x\":1\n},\n\"pos\":{\n \"x\":1\n}\n");
}

#[test]
fn json_numbers_as_read() {
    let r = Range::empty(0);
    let s = json::write(&[
        r.wrap(MetaData::F64(Arc::new("a".into()), Arc::new("1.50".into()))),
        r.wrap(MetaData::F64(Arc::new("b".into()), Arc::new("1_000".into()))),
        r.wrap(MetaData::Bool(Arc::new("c".into()), false)),
        r.wrap(MetaData::String(Arc::new("d".into()), Arc::new("q\"\\".into()))),
    ])
    .unwrap();
    assert_eq!(s, "\"a\":1.5,\n\"b\":1000,\n\"c\":false,\n\"d\":\"q\\\"\\\\\"\n");
}

#[test]
fn json_unbalanced_end() {
    let r = Range::empty(0);
    assert_eq!(json::write(&[r.wrap(MetaData::EndNode(Arc::new("x".into()))), r.wrap(MetaData::StartNode(Arc::new("x".into())))]), None);
}

#[test]
fn json_string_escapes() {
    assert_eq!(json::write_string("a\"b\\c"), "\"a\\\"b\\\\c\"");
    assert_eq!(json::write_string(""), "\"\"");
}

#[test]
fn json_string_escapes_control_characters() {
    assert_eq!(json::write_string("\n"), "\"\\n\"");
    assert_eq!(json::write_string("a\r\tb"), "\"a\\r\\tb\"");
    assert_eq!(json::write_string("\u{8}\u{c}"), "\"\\b\\f\"");
    assert_eq!(json::write_string("\u{1}\u{1f}\u{7f}"), "\"\\u0001\\u001f\u{7f}\"");
}

#[test]
fn json_number_with_overflowing_exponent_kept_as_written() {
    let r = Range::empty(0);
    let s = json::write(&[r.wrap(MetaData::F64(Arc::new("a".into()), Arc::new("1e99999999999999999999".into())))]).unwrap();
    assert_eq!(s, "\"a\":1e99999999999999999999\n");
}

#[test]
fn number_exponent_overflow_detected() {
    let t = "1e99999999999999999999";
    assert!(piston_meta::ReadToken::new(t, 0).number_overflows(false, t.len()));
    let t = "-2.5E+18446744073709551615";
    assert!(!piston_meta::ReadToken::new(t, 0).number_overflows(false, t.len()));
    let t = "1e18446744073709551616";
    assert!(piston_meta::ReadToken::new(t, 0).number_overflows(false, t.len()));
    let t = "1e5";
    assert!(!piston_meta::ReadToken::new(t, 0).number_overflows(false, t.len()));
}

#[test]
fn type_names() {
    assert_eq!(Type::Bool.get_str(), "bool");
    assert_eq!(Type::String.get_str(), "text");
    assert_eq!(Type::F64.get_str(), "num");
}

#[test]
fn error_messages() {
    assert_eq!(ParseError::ExpectedWhitespace(12).to_string(), "#12, Expected whitespace");
    assert_eq!(ParseError::ExpectedTag(Arc::new("(".into()), 3).to_string(), "#3, Expected: `(`");
    assert_eq!(ParseError::NoRules.to_string(), "No rules are specified");
    assert_eq!(ParseError::Conversion("bad".into()).to_string(), "Conversion, bad");
    assert_eq!(
        ParseError::ParseNumberError(read_token::ParseNumberError::ExpectedDigits, 0).to_string(),
        "#0, Invalid number format: Expected digits"
    );
}

#[test]
fn error_report() {
    let text = "ab\ncd\n";
    let handler = ParseErrorHandler::new(text);
    let msg = handler.write(Range::new(4, 0).wrap(ParseError::ExpectedEnd));
    assert_eq!(msg, "Error Expected end\n2,2: cd\n2,2:  ^\n");
    let msg = handler.write_msg(Range::new(1, 0), "look");
    assert_eq!(msg, "look\n1,2: ab\n1,2:  ^\n");
}

#[test]
fn error_report_expected_tag() {
    let text = "a\n\nb";
    let handler = ParseErrorHandler::new(text);
    let msg = handler.write(Range::new(3, 0).wrap(ParseError::ExpectedTag(Arc::new(";".into()), 7)));
    assert_eq!(msg, "Error #7, Expected: `;`\n1: a\n2: \n3,1: b\n3,1: ^\n");
}

#[test]
fn unwrap_report() {
    let ok: Result<u8, Range<ParseError>> = Ok(3);
    assert_eq!(stderr_unwrap("x", ok), Ok(3));
    let err: Result<u8, Range<ParseError>> = Err(Range::new(0, 1).wrap(ParseError::ExpectedEnd));
    assert_eq!(stderr_unwrap("x", err), Err("Error Expected end\n1,1: x\n1,1: ^\n".to_string()));
}

fn is_thread_safe<T: Send + Sync>() {}

#[test]
fn meta_data_thread_safe() {
    is_thread_safe::<MetaData>();
}

#[test]
fn parse_error_thread_safe() {
    is_thread_safe::<ParseError>();
}

#[test]
fn rule_thread_safe() {
    is_thread_safe::<Rule>();
}

#[test]
fn syntax_thread_safe() {
    is_thread_safe::<Syntax>();
}
