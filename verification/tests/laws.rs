use piston_meta::meta_rules::{update_refs, IndentSettings, Node, Not, Number, Repeat, Select, Sequence, Tag, Text};
use piston_meta::optimize::{optimize_rule, unique_byte};
use piston_meta::tokenizer::TokenizerState;
use piston_meta::{parse, MetaData, ParseError, Range, ReadToken, Rule, Syntax};
use std::sync::Arc;

fn tag(text: &str, debug_id: usize) -> Rule {
    Rule::Tag(Tag { debug_id, text: Arc::new(text.into()), not: false, inverted: false, property: None })
}

#[test]
fn not_reads_nothing() {
    let text = "xy";
    let rule = Not { debug_id: 0, rule: tag("a", 1) };
    let mut tokens = vec![];
    let s = TokenizerState(0);
    let res = rule.parse(&mut tokens, &s, &ReadToken::new(&text[1..], 1), &[], &mut IndentSettings::default());
    assert_eq!(res, Ok((Range::new(1, 0), s, None)));
    let rule = Not { debug_id: 0, rule: tag("y", 1) };
    let res = rule.parse(&mut tokens, &s, &ReadToken::new(&text[1..], 1), &[], &mut IndentSettings::default());
    assert_eq!(res, Err(Range::new(1, 1).wrap(ParseError::DidNotExpectTag(Arc::new("y".into()), 0))));
}

#[test]
fn optional_repeat_never_fails() {
    let text = "bbb";
    let rule = Repeat { debug_id: 0, optional: true, rule: tag("a", 1) };
    let mut tokens = vec![];
    let s = TokenizerState(0);
    let res = rule.parse(&mut tokens, &s, &ReadToken::new(&text, 0), &[], &mut IndentSettings::default());
    assert_eq!(res, Ok((Range::new(0, 0), s, Some(Range::new(0, 0).wrap(ParseError::ExpectedTag(Arc::new("a".into()), 1))))));
}

#[test]
fn select_takes_first_success() {
    let text = "ab";
    let select = Select { debug_id: 0, args: vec![tag("a", 1), tag("ab", 2)] };
    let mut tokens = vec![];
    let s = TokenizerState(0);
    let res = select.parse(&mut tokens, &s, &ReadToken::new(&text, 0), &[], &mut IndentSettings::default());
    assert_eq!(res, Ok((Range::new(0, 1), s, None)));
}

#[test]
fn select_reports_deepest_error() {
    let text = "ab";
    let select = Select {
        debug_id: 0,
        args: vec![
            tag("x", 1),
            Rule::Sequence(Sequence { debug_id: 2, args: vec![tag("a", 3), tag("c", 4)] }),
            tag("y", 5),
        ],
    };
    let mut tokens = vec![];
    let s = TokenizerState(0);
    let res = select.parse(&mut tokens, &s, &ReadToken::new(&text, 0), &[], &mut IndentSettings::default());
    assert_eq!(res, Err(Range::new(1, 0).wrap(ParseError::ExpectedTag(Arc::new("c".into()), 4))));
}

#[test]
fn range_starts_at_cursor() {
    let text = "xx\"a\" 7";
    let seq = Sequence {
        debug_id: 0,
        args: vec![
            Rule::Text(Text { debug_id: 1, allow_empty: true, property: None }),
            tag(" ", 2),
            Rule::Number(Number { debug_id: 3, property: None, allow_underscore: false }),
        ],
    };
    let mut tokens = vec![];
    let s = TokenizerState(0);
    let res = seq.parse(&mut tokens, &s, &ReadToken::new(&text[2..], 2), &[], &mut IndentSettings::default());
    assert_eq!(res, Ok((Range::new(2, 5), s, None)));
}

#[test]
fn update_refs_twice_changes_nothing() {
    let name: Arc<String> = Arc::new("a".into());
    let mut syntax = Syntax::new();
    syntax.push(name.clone(), tag("x", 1));
    syntax.push(name.clone(), tag("y", 2));
    syntax.push(
        Arc::new("doc".into()),
        Rule::Sequence(Sequence {
            debug_id: 3,
            args: vec![
                Rule::Node(Node { debug_id: 4, name: name.clone(), property: None, index: None }),
                Rule::Node(Node { debug_id: 5, name: Arc::new("missing".into()), property: None, index: None }),
            ],
        }),
    );
    update_refs(&mut syntax);
    let once = syntax.clone();
    update_refs(&mut syntax);
    assert_eq!(syntax, once);
    match &syntax.rules[2] {
        Rule::Sequence(s) => {
            assert_eq!(s.args[0], Rule::Node(Node { debug_id: 4, name: name.clone(), property: None, index: Some(0) }));
            assert_eq!(s.args[1], Rule::Node(Node { debug_id: 5, name: Arc::new("missing".into()), property: None, index: None }));
        }
        _ => panic!("expected a sequence"),
    }
    let mut tokens = vec![];
    assert_eq!(
        parse(&syntax, "x", &mut tokens),
        Err(Range::new(1, 0).wrap(ParseError::InvalidRule("Node rule is not updated to reference", 5)))
    );
}

#[test]
fn parse_requires_whole_text() {
    let mut syntax = Syntax::new();
    syntax.push(Arc::new("doc".into()), tag("ab", 1));
    let mut tokens = vec![];
    assert_eq!(parse(&syntax, "abc", &mut tokens), Err(Range::new(2, 0).wrap(ParseError::ExpectedEnd)));
    assert_eq!(parse(&syntax, "ab", &mut tokens), Ok(()));
}

#[test]
fn unique_byte_decides() {
    let rule = Rule::Sequence(Sequence { debug_id: 0, args: vec![tag("(", 1), tag("a", 2)] });
    assert_eq!(unique_byte(&rule, &[]), Some(b'('));
    let mut tokens = vec![];
    let s = TokenizerState(0);
    let text = "[a";
    let res = rule.parse(&mut tokens, &s, &ReadToken::new(&text, 0), &[], &mut IndentSettings::default());
    assert_eq!(res, Err(Range::new(0, 0).wrap(ParseError::ExpectedTag(Arc::new("(".into()), 1))));
    let text = "(a";
    let res = rule.parse(&mut tokens, &s, &ReadToken::new(&text, 0), &[], &mut IndentSettings::default());
    assert!(res.is_ok());
}

#[test]
fn reading_keeps_tokens_before_state() {
    let keep = Range::new(0, 1).wrap(MetaData::Bool(Arc::new("keep".into()), true));
    let stale = Range::new(5, 1).wrap(MetaData::Bool(Arc::new("stale".into()), true));
    let mut tokens = vec![keep.clone(), stale];
    let rule = Rule::Tag(Tag { debug_id: 0, text: Arc::new("a".into()), not: false, inverted: false, property: Some(Arc::new("a".into())) });
    let s = TokenizerState(1);
    let res = rule.parse(&mut tokens, &s, &ReadToken::new("ab", 0), &[], &mut IndentSettings::default());
    assert_eq!(res, Ok((Range::new(0, 1), TokenizerState(2), None)));
    assert_eq!(tokens, vec![keep, Range::new(0, 1).wrap(MetaData::Bool(Arc::new("a".into()), true))]);
}

#[test]
fn whitespace_matches_std() {
    for v in 0u32..0x110000 {
        if let Some(c) = char::from_u32(v) {
            assert_eq!(piston_meta::read_token::is_whitespace(c), c.is_whitespace(), "{:x}", v);
        }
    }
}

#[test]
fn update_refs_picks_least_index_and_keeps_set_ones() {
    let node = |name: &str, index: Option<usize>| {
        Rule::Node(Node { debug_id: 0, name: Arc::new(name.into()), property: None, index })
    };
    let mut rule = Rule::Sequence(Sequence { debug_id: 0, args: vec![node("b", None), node("a", Some(7)), node("c", None)] });
    let names: Vec<Arc<String>> = vec![Arc::new("a".into()), Arc::new("b".into()), Arc::new("b".into())];
    rule.update_refs(&names);
    assert_eq!(rule, Rule::Sequence(Sequence { debug_id: 0, args: vec![node("b", Some(1)), node("a", Some(7)), node("c", None)] }));
}

#[test]
fn reading_ends_within_text() {
    let text = "xaaa";
    let rule = Repeat { debug_id: 0, optional: false, rule: tag("a", 1) };
    let mut tokens = vec![];
    let s = TokenizerState(0);
    let rt = ReadToken::new(&text[1..], 1);
    let res = rule.parse(&mut tokens, &s, &rt, &[], &mut IndentSettings::default());
    let (range, _, _) = res.unwrap();
    assert_eq!(range.offset, 1);
    assert!(range.offset + range.length <= 1 + rt.src.len());
    assert_eq!(range.offset + range.length, text.len());
}

#[test]
fn fast_select_reads_as_select() {
    let select = Rule::Select(Select { debug_id: 0, args: vec![tag("a", 1), tag("bc", 2), tag("b", 3), tag("x", 4)] });
    let fast = optimize_rule(&select, &[]);
    assert!(matches!(fast, Rule::FastSelect(_)));
    for text in ["a", "bc", "bd", "b", "x", "q", "ab"] {
        let s = TokenizerState(0);
        let mut t1 = vec![];
        let mut t2 = vec![];
        let r1 = select.parse(&mut t1, &s, &ReadToken::new(text, 0), &[], &mut IndentSettings::default());
        let r2 = fast.parse(&mut t2, &s, &ReadToken::new(text, 0), &[], &mut IndentSettings::default());
        match (r1, r2) {
            (Ok((a, sa, _)), Ok((b, sb, _))) => {
                assert_eq!(a, b);
                assert_eq!(sa, sb);
            }
            (Err(_), Err(_)) => {}
            (a, b) => panic!("{}: {:?} {:?}", text, a, b),
        }
    }
}
