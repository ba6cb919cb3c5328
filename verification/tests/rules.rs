use piston_meta::meta_rules::{
    IndentSettings, Number, Optional, Repeat, Select, SeparateBy, Sequence, Tag, Text, Token, UntilAny,
    UntilAnyOrWhitespace, Whitespace,
};
use piston_meta::tokenizer::TokenizerState;
use piston_meta::{parse, MetaData, ParseError, Range, ReadToken, Rule, Syntax};
use std::sync::Arc;

/// Checks a number property against the value its numeral reads as.
fn assert_number(d: &MetaData, name: &Arc<String>, value: f64) {
    match d {
        MetaData::F64(n, v) => {
            assert_eq!(n, name);
            assert_eq!(v.replace('_', "").parse::<f64>().unwrap(), value);
        }
        _ => panic!("expected a number, found {:?}", d),
    }
}

#[test]
fn token_expected_token() {
    let text = ")";
    let start_parenthesis = Token {
        debug_id: 0,
        text: Arc::new("(".into()),
        not: false,
        inverted: false,
        property: None,
    };
    let mut tokens = vec![];
    let s = TokenizerState::new();
    let res = start_parenthesis.parse(&mut tokens, &s, &ReadToken::new(&text, 0));
    assert_eq!(res, Err(Range::new(0, 0).wrap(ParseError::ExpectedTag(Arc::new("(".into()), 0))));
}

#[test]
fn did_not_expect_token() {
    let text = ")";
    let start_parenthesis = Token {
        debug_id: 0,
        text: Arc::new(")".into()),
        not: true,
        inverted: false,
        property: None,
    };
    let mut tokens = vec![];
    let s = TokenizerState::new();
    let res = start_parenthesis.parse(&mut tokens, &s, &ReadToken::new(&text, 0));
    assert_eq!(res, Err(Range::new(0, 1).wrap(ParseError::DidNotExpectTag(Arc::new(")".into()), 0))));
}

#[test]
fn token_successful() {
    let text = "fn foo()";
    let fn_ = Token {
        debug_id: 0,
        text: Arc::new("fn ".into()),
        not: false,
        inverted: false,
        property: None,
    };
    let mut tokens = vec![];
    let s = TokenizerState::new();
    let res = fn_.parse(&mut tokens, &s, &ReadToken::new(&text, 0));
    assert_eq!(res, Ok((Range::new(0, 3), s, None)));
    assert_eq!(tokens.len(), 0);

    // Set bool property.
    let mut tokens = vec![];
    let has_arguments: Arc<String> = Arc::new("has_arguments".into());
    let start_parenthesis = Token {
        debug_id: 0,
        text: Arc::new("(".into()),
        not: false,
        inverted: false,
        property: Some(has_arguments.clone()),
    };
    let s = TokenizerState::new();
    let res = start_parenthesis.parse(&mut tokens, &s, &ReadToken::new(&text[6..], 6));
    assert_eq!(res, Ok((Range::new(6, 1), TokenizerState(1), None)));
    assert_eq!(tokens.len(), 1);
    assert_eq!(&tokens[0].data, &MetaData::Bool(has_arguments.clone(), true));

    // Set inverted bool property.
    let mut tokens = vec![];
    let has_arguments: Arc<String> = Arc::new("has_no_arguments".into());
    let start_parenthesis = Token {
        debug_id: 0,
        text: Arc::new("(".into()),
        not: false,
        inverted: true,
        property: Some(has_arguments.clone()),
    };
    let s = TokenizerState::new();
    let res = start_parenthesis.parse(&mut tokens, &s, &ReadToken::new(&text[6..], 6));
    assert_eq!(res, Ok((Range::new(6, 1), TokenizerState(1), None)));
    assert_eq!(tokens.len(), 1);
    assert_eq!(&tokens[0].data, &MetaData::Bool(has_arguments.clone(), false));
}

#[test]
fn text_expected_text() {
    let text = "23";
    let mut tokens = vec![];
    let s = TokenizerState::new();
    let rule = Text { debug_id: 0, allow_empty: true, property: None };
    let res = rule.parse(&mut tokens, &s, &ReadToken::new(&text, 0));
    assert_eq!(res, Err(Range::new(0, 0).wrap(ParseError::ExpectedText(0))));
}

#[test]
fn text_empty_string() {
    let text = "\"\"";
    let mut tokens = vec![];
    let s = TokenizerState::new();
    let rule = Text { debug_id: 0, allow_empty: false, property: None };
    let res = rule.parse(&mut tokens, &s, &ReadToken::new(&text, 0));
    assert_eq!(res, Err(Range::new(0, 2).wrap(ParseError::EmptyTextNotAllowed(0))));
}

#[test]
fn text_successful() {
    let text = "foo \"hello\"";
    let mut tokens = vec![];
    let s = TokenizerState::new();
    let foo: Arc<String> = Arc::new("foo".into());
    let rule = Text { debug_id: 0, allow_empty: true, property: Some(foo.clone()) };
    let res = rule.parse(&mut tokens, &s, &ReadToken::new(&text[4..], 4));
    assert_eq!(res, Ok((Range::new(4, 7), TokenizerState(1), None)));
    assert_eq!(tokens.len(), 1);
    assert_eq!(&tokens[0].data, &MetaData::String(foo.clone(), Arc::new("hello".into())));
}

#[test]
fn number_expected_number() {
    let text = "foo";
    let number = Number { debug_id: 0, property: None, allow_underscore: false };
    let mut tokenizer = vec![];
    let s = TokenizerState::new();
    let res = number.parse(&mut tokenizer, &s, &ReadToken::new(&text, 0));
    assert_eq!(res, Err(Range::new(0, 0).wrap(ParseError::ExpectedNumber(0))));
}

#[test]
fn number_successful() {
    let text = "foo 1 1.1 10e1 10.0E1 10_000";
    let number = Number { debug_id: 0, property: None, allow_underscore: true };
    let mut tokens = vec![];
    let s = TokenizerState::new();
    let res = number.parse(&mut tokens, &s, &ReadToken::new(&text[4..], 4));
    assert_eq!(res, Ok((Range::new(4, 1), s, None)));
    let res = number.parse(&mut tokens, &s, &ReadToken::new(&text[6..], 6));
    assert_eq!(res, Ok((Range::new(6, 3), s, None)));
    let res = number.parse(&mut tokens, &s, &ReadToken::new(&text[10..], 10));
    assert_eq!(res, Ok((Range::new(10, 4), s, None)));
    let res = number.parse(&mut tokens, &s, &ReadToken::new(&text[22..], 22));
    assert_eq!(res, Ok((Range::new(22, 6), s, None)));

    let val: Arc<String> = Arc::new("val".into());
    let number = Number { debug_id: 0, property: Some(val.clone()), allow_underscore: false };
    let res = number.parse(&mut tokens, &s, &ReadToken::new(&text[15..], 15));
    assert_eq!(res, Ok((Range::new(15, 6), TokenizerState(1), None)));
    assert_eq!(tokens.len(), 1);
    assert_number(&tokens[0].data, &val, 10.0e1);
}

#[test]
fn until_any_required() {
    let text = "fn ()";
    let mut tokens = vec![];
    let s = TokenizerState::new();
    let name = UntilAny { debug_id: 0, any_characters: Arc::new("(".into()), optional: false, property: None };
    let res = name.parse(&mut tokens, &s, &ReadToken::new(&text[3..], 3));
    assert_eq!(res, Err(Range::new(3, 0).wrap(ParseError::ExpectedSomething(0))));
}

#[test]
fn until_any_successful() {
    let text = "fn foo()";
    let mut tokens = vec![];
    let s = TokenizerState::new();
    let function_name: Arc<String> = Arc::new("function_name".into());
    let name = UntilAny {
        debug_id: 0,
        any_characters: Arc::new("(".into()),
        optional: false,
        property: Some(function_name.clone()),
    };
    let res = name.parse(&mut tokens, &s, &ReadToken::new(&text[3..], 3));
    assert_eq!(res, Ok((Range::new(3, 3), TokenizerState(1), None)));
    assert_eq!(tokens.len(), 1);
    assert_eq!(&tokens[0].data, &MetaData::String(function_name.clone(), Arc::new("foo".into())));
}

#[test]
fn until_any_or_whitespace_required() {
    let text = "fn ()";
    let mut tokenizer = vec![];
    let s = TokenizerState::new();
    let name = UntilAnyOrWhitespace {
        debug_id: 0,
        any_characters: Arc::new("(".into()),
        optional: false,
        property: None,
    };
    let res = name.parse(&mut tokenizer, &s, &ReadToken::new(&text[3..], 3));
    assert_eq!(res, Err(Range::new(3, 0).wrap(ParseError::ExpectedSomething(0))));
}

#[test]
fn until_any_or_whitespace_successful() {
    let text = "fn foo()";
    let mut tokens = vec![];
    let s = TokenizerState::new();
    let function_name: Arc<String> = Arc::new("function_name".into());
    let name = UntilAnyOrWhitespace {
        debug_id: 0,
        any_characters: Arc::new("(".into()),
        optional: false,
        property: Some(function_name.clone()),
    };
    let res = name.parse(&mut tokens, &s, &ReadToken::new(&text[3..], 3));
    assert_eq!(res, Ok((Range::new(3, 3), TokenizerState(1), None)));
    assert_eq!(tokens.len(), 1);
    assert_eq!(&tokens[0].data, &MetaData::String(function_name.clone(), Arc::new("foo".into())));
}

#[test]
fn whitespace_optional() {
    let text = "a,b, c";
    let optional_whitespace = Whitespace { debug_id: 0, optional: true };
    assert_eq!(optional_whitespace.parse(&ReadToken::new(&text, 0)), Ok(Range::new(0, 0)));
    assert_eq!(optional_whitespace.parse(&ReadToken::new(&text[4..], 4)), Ok(Range::new(4, 1)));
}

#[test]
fn whitespace_required() {
    let text = "a,   b,c";
    let required_whitespace = Whitespace { debug_id: 0, optional: false };
    assert_eq!(required_whitespace.parse(&ReadToken::new(&text[2..], 2)), Ok(Range::new(2, 3)));
    assert_eq!(
        required_whitespace.parse(&ReadToken::new(&text[7..], 7)),
        Err(Range::new(7, 0).wrap(ParseError::ExpectedWhitespace(0)))
    );
}

#[test]
fn optional_fail_but_continue() {
    let text = "2";
    let mut tokens = vec![];
    let s = TokenizerState::new();
    let num: Arc<String> = Arc::new("num".into());
    // Will fail because text is expected first.
    let optional = Optional {
        debug_id: 0,
        rule: Rule::Sequence(Sequence {
            debug_id: 1,
            args: vec![
                Rule::Text(Text { debug_id: 2, allow_empty: true, property: None }),
                Rule::Number(Number { debug_id: 3, property: Some(num.clone()), allow_underscore: false }),
            ],
        }),
    };
    let res = optional.parse(&mut tokens, &s, &ReadToken::new(&text, 0), &[], &mut IndentSettings::default());
    assert_eq!(res, (Range::new(0, 0), TokenizerState(0), Some(Range::new(0, 0).wrap(ParseError::ExpectedText(2)))));
    assert_eq!(tokens.len(), 0);
}

#[test]
fn repeat_fail() {
    let text = "[a][a][a]";
    let mut tokens = vec![];
    let s = TokenizerState::new();
    let token: Arc<String> = Arc::new("(a)".into());
    let rule = Repeat {
        debug_id: 0,
        optional: false,
        rule: Rule::Tag(Tag { debug_id: 1, text: token.clone(), not: false, inverted: false, property: None }),
    };
    let res = rule.parse(&mut tokens, &s, &ReadToken::new(&text, 0), &[], &mut IndentSettings::default());
    assert_eq!(res, Err(Range::new(0, 0).wrap(ParseError::ExpectedTag(token.clone(), 1))))
}

#[test]
fn repeat_success() {
    let text = "(a)(a)(a)";
    let mut tokens = vec![];
    let s = TokenizerState::new();
    let token: Arc<String> = Arc::new("(a)".into());
    let rule = Repeat {
        debug_id: 0,
        optional: false,
        rule: Rule::Tag(Tag { debug_id: 1, text: token.clone(), not: false, inverted: false, property: None }),
    };
    let res = rule.parse(&mut tokens, &s, &ReadToken::new(&text, 0), &[], &mut IndentSettings::default());
    assert_eq!(
        res,
        Ok((Range::new(0, 9), TokenizerState(0), Some(Range::new(9, 0).wrap(ParseError::ExpectedTag(token.clone(), 1)))))
    )
}

#[test]
fn select_invalid_rule() {
    let text = "";
    let select = Rule::Select(Select { debug_id: 0, args: vec![] });
    let mut syntax = Syntax::new();
    syntax.push(Arc::new("".into()), select);
    let mut tokens = vec![];
    let res = parse(&syntax, &text, &mut tokens);
    let invalid_rule = match &res {
        &Err(ref range_err) => match range_err.data {
            ParseError::InvalidRule(_, _) => true,
            _ => false,
        },
        _ => false,
    };
    assert!(invalid_rule);
}

#[test]
fn select_fail_first() {
    let text = "2";
    let num: Arc<String> = Arc::new("num".into());
    let select = Rule::Select(Select {
        debug_id: 0,
        args: vec![
            Rule::Text(Text { debug_id: 1, allow_empty: true, property: None }),
            Rule::Number(Number { debug_id: 2, property: Some(num.clone()), allow_underscore: false }),
        ],
    });
    let mut syntax = Syntax::new();
    syntax.push(Arc::new("".into()), select);
    let mut tokens = vec![];
    let res = parse(&syntax, &text, &mut tokens);
    assert_eq!(res, Ok(()));
    assert_eq!(tokens.len(), 1);
    assert_eq!(tokens[0].offset, 0);
    assert_eq!(tokens[0].length, 1);
    assert_number(&tokens[0].data, &num, 2.0);
}

/// The rule that reads arguments separated by commas.
fn args_rule(optional: bool, allow_trail: bool, property: Option<Arc<String>>) -> SeparateBy {
    SeparateBy {
        debug_id: 0,
        rule: Rule::UntilAnyOrWhitespace(UntilAnyOrWhitespace {
            debug_id: 1,
            any_characters: Arc::new(",)".into()),
            optional: false,
            property,
        }),
        by: Rule::Tag(Tag { debug_id: 2, text: Arc::new(",".into()), not: false, inverted: false, property: None }),
        optional,
        allow_trail,
    }
}

#[test]
fn separate_by_required() {
    let text = "foo()";
    let mut tokens = vec![];
    let s = TokenizerState::new();
    let sep = args_rule(false, false, None);
    let res = sep.parse(&mut tokens, &s, &ReadToken::new(&text[4..], 4), &[], &mut IndentSettings::default());
    assert_eq!(res, Err(Range::new(4, 0).wrap(ParseError::ExpectedSomething(1))));
}

#[test]
fn separate_by_optional() {
    let text = "foo()";
    let mut tokens = vec![];
    let s = TokenizerState::new();
    let sep = args_rule(true, false, None);
    let res = sep.parse(&mut tokens, &s, &ReadToken::new(&text[4..], 4), &[], &mut IndentSettings::default());
    assert_eq!(res, Ok((Range::new(4, 0), s, Some(Range::new(4, 0).wrap(ParseError::ExpectedSomething(1))))));
}

#[test]
fn separate_by_disallow_trail() {
    let text = "foo(a,b,c,)";
    let mut tokens = vec![];
    let s = TokenizerState::new();
    let arg: Arc<String> = Arc::new("arg".into());
    let sep = args_rule(true, false, Some(arg.clone()));
    let res = sep.parse(&mut tokens, &s, &ReadToken::new(&text[4..], 4), &[], &mut IndentSettings::default());
    assert_eq!(res, Err(Range::new(10, 0).wrap(ParseError::ExpectedSomething(1))));
}

#[test]
fn separate_by_allow_trail() {
    let text = "foo(a,b,c,)";
    let mut tokens = vec![];
    let s = TokenizerState::new();
    let arg: Arc<String> = Arc::new("arg".into());
    let sep = args_rule(true, true, Some(arg.clone()));
    let res = sep.parse(&mut tokens, &s, &ReadToken::new(&text[4..], 4), &[], &mut IndentSettings::default());
    assert_eq!(
        res,
        Ok((Range::new(4, 6), TokenizerState(3), Some(Range::new(10, 0).wrap(ParseError::ExpectedSomething(1)))))
    );
    assert_eq!(tokens.len(), 3);
    assert_eq!(&tokens[0].data, &MetaData::String(arg.clone(), Arc::new("a".into())));
    assert_eq!(&tokens[1].data, &MetaData::String(arg.clone(), Arc::new("b".into())));
    assert_eq!(&tokens[2].data, &MetaData::String(arg.clone(), Arc::new("c".into())));
}

#[test]
fn separate_by_successful() {
    let text = "foo(a,b,c)";
    let mut tokens = vec![];
    let s = TokenizerState::new();
    let arg: Arc<String> = Arc::new("arg".into());
    let sep = args_rule(true, false, Some(arg.clone()));
    let res = sep.parse(&mut tokens, &s, &ReadToken::new(&text[4..], 4), &[], &mut IndentSettings::default());
    assert_eq!(
        res,
        Ok((
            Range::new(4, 5),
            TokenizerState(3),
            Some(Range::new(9, 0).wrap(ParseError::ExpectedTag(Arc::new(",".into()), 2)))
        ))
    );
    assert_eq!(tokens.len(), 3);
    assert_eq!(&tokens[0].data, &MetaData::String(arg.clone(), Arc::new("a".into())));
    assert_eq!(&tokens[1].data, &MetaData::String(arg.clone(), Arc::new("b".into())));
    assert_eq!(&tokens[2].data, &MetaData::String(arg.clone(), Arc::new("c".into())));
}

/// The rule that reads lists separated by commas, separated by semicolons.
fn nested_rule(arg: &Arc<String>) -> SeparateBy {
    SeparateBy {
        debug_id: 0,
        rule: Rule::SeparateBy(Box::new(SeparateBy {
            debug_id: 1,
            rule: Rule::UntilAnyOrWhitespace(UntilAnyOrWhitespace {
                debug_id: 2,
                any_characters: Arc::new(",;".into()),
                optional: false,
                property: Some(arg.clone()),
            }),
            by: Rule::Tag(Tag { debug_id: 3, text: Arc::new(",".into()), not: false, inverted: false, property: None }),
            optional: false,
            allow_trail: true,
        })),
        by: Rule::Tag(Tag { debug_id: 4, text: Arc::new(";".into()), not: false, inverted: false, property: None }),
        optional: false,
        allow_trail: true,
    }
}

#[test]
fn separate_by_nested() {
    let text = "a,b,c;d,e,f;";
    let mut tokens = vec![];
    let s = TokenizerState::new();
    let arg: Arc<String> = Arc::new("arg".into());
    let sep = nested_rule(&arg);
    let res = sep.parse(&mut tokens, &s, &ReadToken::new(&text, 0), &[], &mut IndentSettings::default());
    assert_eq!(
        res,
        Ok((Range::new(0, 12), TokenizerState(6), Some(Range::new(12, 0).wrap(ParseError::ExpectedSomething(2)))))
    );
    assert_eq!(tokens.len(), 6);
    assert_eq!(&tokens[0].data, &MetaData::String(arg.clone(), Arc::new("a".into())));
    assert_eq!(&tokens[1].data, &MetaData::String(arg.clone(), Arc::new("b".into())));
    assert_eq!(&tokens[2].data, &MetaData::String(arg.clone(), Arc::new("c".into())));
    assert_eq!(&tokens[3].data, &MetaData::String(arg.clone(), Arc::new("d".into())));
    assert_eq!(&tokens[4].data, &MetaData::String(arg.clone(), Arc::new("e".into())));
}

#[test]
fn separated_by_required() {
    let text = "foo()";
    let mut tokens = vec![];
    let s = TokenizerState::new();
    let sep = args_rule(false, false, None);
    let res = sep.parse(&mut tokens, &s, &ReadToken::new(&text[4..], 4), &[], &mut IndentSettings::default());
    assert_eq!(res, Err(Range::new(4, 0).wrap(ParseError::ExpectedSomething(1))));
}

#[test]
fn separated_by_optional() {
    let text = "foo()";
    let mut tokens = vec![];
    let s = TokenizerState::new();
    let sep = args_rule(true, false, None);
    let res = sep.parse(&mut tokens, &s, &ReadToken::new(&text[4..], 4), &[], &mut IndentSettings::default());
    assert_eq!(res, Ok((Range::new(4, 0), s, Some(Range::new(4, 0).wrap(ParseError::ExpectedSomething(1))))));
}

#[test]
fn separated_by_disallow_trail() {
    let text = "foo(a,b,c,)";
    let mut tokens = vec![];
    let s = TokenizerState::new();
    let arg: Arc<String> = Arc::new("arg".into());
    let sep = args_rule(true, false, Some(arg.clone()));
    let res = sep.parse(&mut tokens, &s, &ReadToken::new(&text[4..], 4), &[], &mut IndentSettings::default());
    assert_eq!(res, Err(Range::new(10, 0).wrap(ParseError::ExpectedSomething(1))));
}

#[test]
fn separated_by_allow_trail() {
    let text = "foo(a,b,c,)";
    let mut tokens = vec![];
    let s = TokenizerState::new();
    let arg: Arc<String> = Arc::new("arg".into());
    let sep = args_rule(true, true, Some(arg.clone()));
    let res = sep.parse(&mut tokens, &s, &ReadToken::new(&text[4..], 4), &[], &mut IndentSettings::default());
    assert_eq!(
        res,
        Ok((Range::new(4, 6), TokenizerState(3), Some(Range::new(10, 0).wrap(ParseError::ExpectedSomething(1)))))
    );
    assert_eq!(tokens.len(), 3);
    assert_eq!(&tokens[0].data, &MetaData::String(arg.clone(), Arc::new("a".into())));
    assert_eq!(&tokens[1].data, &MetaData::String(arg.clone(), Arc::new("b".into())));
    assert_eq!(&tokens[2].data, &MetaData::String(arg.clone(), Arc::new("c".into())));
}

#[test]
fn separated_by_successful() {
    let text = "foo(a,b,c)";
    let mut tokens = vec![];
    let s = TokenizerState::new();
    let arg: Arc<String> = Arc::new("arg".into());
    let sep = args_rule(true, false, Some(arg.clone()));
    let res = sep.parse(&mut tokens, &s, &ReadToken::new(&text[4..], 4), &[], &mut IndentSettings::default());
    assert_eq!(
        res,
        Ok((
            Range::new(4, 5),
            TokenizerState(3),
            Some(Range::new(9, 0).wrap(ParseError::ExpectedTag(Arc::new(",".into()), 2)))
        ))
    );
    assert_eq!(tokens.len(), 3);
    assert_eq!(&tokens[0].data, &MetaData::String(arg.clone(), Arc::new("a".into())));
    assert_eq!(&tokens[1].data, &MetaData::String(arg.clone(), Arc::new("b".into())));
    assert_eq!(&tokens[2].data, &MetaData::String(arg.clone(), Arc::new("c".into())));
}

#[test]
fn separated_by_nested() {
    let text = "a,b,c;d,e,f;";
    let mut tokens = vec![];
    let s = TokenizerState::new();
    let arg: Arc<String> = Arc::new("arg".into());
    let sep = nested_rule(&arg);
    let res = sep.parse(&mut tokens, &s, &ReadToken::new(&text, 0), &[], &mut IndentSettings::default());
    assert_eq!(
        res,
        Ok((Range::new(0, 12), TokenizerState(6), Some(Range::new(12, 0).wrap(ParseError::ExpectedSomething(2)))))
    );
    assert_eq!(tokens.len(), 6);
    assert_eq!(&tokens[0].data, &MetaData::String(arg.clone(), Arc::new("a".into())));
    assert_eq!(&tokens[1].data, &MetaData::String(arg.clone(), Arc::new("b".into())));
    assert_eq!(&tokens[2].data, &MetaData::String(arg.clone(), Arc::new("c".into())));
    assert_eq!(&tokens[3].data, &MetaData::String(arg.clone(), Arc::new("d".into())));
    assert_eq!(&tokens[4].data, &MetaData::String(arg.clone(), Arc::new("e".into())));
}
