use piston_meta::meta_rules::{IndentSettings, Lines, Number, Sequence, Text, Whitespace};
use piston_meta::tokenizer::TokenizerState;
use piston_meta::{parse, MetaData, ParseError, Range, ReadToken, Rule, Syntax};
use std::sync::Arc;

/// Lines of numbers, each stored in the property `val` if there is one.
fn number_lines(property: Option<Arc<String>>, indent: bool) -> Lines {
    Lines {
        debug_id: 0,
        rule: Rule::Number(Number { debug_id: 1, property, allow_underscore: false }),
        indent,
    }
}

#[test]
fn lines_fail() {
    let text = "
1
2

3


\"error\"
4
        ";
    let ref mut indent_settings = IndentSettings::default();
    let mut tokenizer = vec![];
    let s = TokenizerState::new();
    let lines = number_lines(None, false);
    let res = lines.parse(&mut tokenizer, &s, &ReadToken::new(&text, 0), &[], indent_settings);
    assert_eq!(res, Ok((Range::new(0, 10), s, Some(Range::new(10, 0).wrap(ParseError::ExpectedNumber(1))))));
}

#[test]
fn lines_fails_same_line() {
    let text = "
1
2

3 4

5
 ";
    let ref mut ident_settings = IndentSettings::default();
    let mut tokenizer = vec![];
    let s = TokenizerState::new();
    let val: Arc<String> = Arc::new("val".into());
    let lines = Lines {
        debug_id: 0,
        rule: Rule::Sequence(Sequence {
            debug_id: 1,
            args: vec![
                Rule::Number(Number { debug_id: 1, property: Some(val.clone()), allow_underscore: false }),
                Rule::Whitespace(Whitespace { debug_id: 2, optional: true }),
            ],
        }),
        indent: false,
    };
    let res = lines.parse(&mut tokenizer, &s, &ReadToken::new(&text, 0), &[], ident_settings);
    assert_eq!(res, Err(Range::new(8, 0).wrap(ParseError::ExpectedNewLine(0))));
}

#[test]
fn lines_success() {
    let text = "
1
2

3


4
 ";
    let ref mut ident_settings = IndentSettings::default();
    let mut tokenizer = vec![];
    let s = TokenizerState::new();
    let val: Arc<String> = Arc::new("val".into());
    let lines = number_lines(Some(val.clone()), false);
    let res = lines.parse(&mut tokenizer, &s, &ReadToken::new(&text, 0), &[], ident_settings);
    assert_eq!(res, Ok((Range::new(0, 13), TokenizerState(4), None)));
}

#[test]
fn lines_sequence() {
    let text = "
1
2
3
\"one\"
\"two\"
\"three\"
        ";
    let num: Arc<String> = Arc::new("num".into());
    let tex: Arc<String> = Arc::new("tex".into());
    let rule = Rule::Sequence(Sequence {
        debug_id: 0,
        args: vec![
            Rule::Lines(Box::new(Lines {
                debug_id: 1,
                rule: Rule::Number(Number { debug_id: 2, allow_underscore: true, property: Some(num.clone()) }),
                indent: false,
            })),
            Rule::Lines(Box::new(Lines {
                debug_id: 3,
                rule: Rule::Text(Text { debug_id: 4, allow_empty: false, property: Some(tex.clone()) }),
                indent: false,
            })),
        ],
    });

    let mut syntax = Syntax::new();
    syntax.push(Arc::new("".into()), rule);
    let mut res = vec![];
    assert_eq!(parse(&syntax, text, &mut res), Ok(()));
    assert_eq!(
        res,
        vec![
            Range::new(1, 1).wrap(MetaData::F64(num.clone(), Arc::new(format!("{}", 1.0)))),
            Range::new(3, 1).wrap(MetaData::F64(num.clone(), Arc::new(format!("{}", 2.0)))),
            Range::new(5, 1).wrap(MetaData::F64(num.clone(), Arc::new(format!("{}", 3.0)))),
            Range::new(7, 5).wrap(MetaData::String(tex.clone(), Arc::new("one".into()))),
            Range::new(13, 5).wrap(MetaData::String(tex.clone(), Arc::new("two".into()))),
            Range::new(19, 7).wrap(MetaData::String(tex.clone(), Arc::new("three".into())))
        ]
    );
}

#[test]
fn indent_success() {
    let text = "
1
2

3


4
 ";
    let ref mut ident_settings = IndentSettings::default();
    let mut tokenizer = vec![];
    let s = TokenizerState::new();
    let val: Arc<String> = Arc::new("val".into());
    let lines = number_lines(Some(val.clone()), true);
    let res = lines.parse(&mut tokenizer, &s, &ReadToken::new(&text, 0), &[], ident_settings);
    assert_eq!(res, Ok((Range::new(0, 13), TokenizerState(4), None)));
}

#[test]
fn indent_1_2() {
    let text = "
1
2
 3
4
 ";
    let ref mut ident_settings = IndentSettings::default();
    let mut tokenizer = vec![];
    let s = TokenizerState::new();
    let val: Arc<String> = Arc::new("val".into());
    let lines = number_lines(Some(val.clone()), true);
    let res = lines.parse(&mut tokenizer, &s, &ReadToken::new(&text, 0), &[], ident_settings);
    assert_eq!(res, Ok((Range::new(0, 5), TokenizerState(2), None)));
}

#[test]
fn indent_align() {
    let text = "
    1
    2
";
    let ref mut ident_settings = IndentSettings::default();
    let mut tokenizer = vec![];
    let s = TokenizerState::new();
    let val: Arc<String> = Arc::new("val".into());
    let lines = number_lines(Some(val.clone()), true);
    let res = lines.parse(&mut tokenizer, &s, &ReadToken::new(&text, 0), &[], ident_settings);
    assert_eq!(res, Ok((Range::new(0, 13), TokenizerState(2), None)));
}

#[test]
fn indent_align_tabs() {
    let text = "
\t1
    2
";
    let ref mut ident_settings = IndentSettings::default();
    let mut tokenizer = vec![];
    let s = TokenizerState::new();
    let val: Arc<String> = Arc::new("val".into());
    let lines = number_lines(Some(val.clone()), true);
    let res = lines.parse(&mut tokenizer, &s, &ReadToken::new(&text, 0), &[], ident_settings);
    assert_eq!(res, Ok((Range::new(0, 10), TokenizerState(2), None)));
}

#[test]
fn indent_align_tabs2() {
    let text = "
    1
\t2
";
    let ref mut ident_settings = IndentSettings::default();
    let mut tokenizer = vec![];
    let s = TokenizerState::new();
    let val: Arc<String> = Arc::new("val".into());
    let lines = number_lines(Some(val.clone()), true);
    let res = lines.parse(&mut tokenizer, &s, &ReadToken::new(&text, 0), &[], ident_settings);
    assert_eq!(res, Ok((Range::new(0, 10), TokenizerState(2), None)));
}
