use piston_meta::meta_rules::{update_refs, Node, Number, Optional, Select, Sequence, Tag, Whitespace};
use piston_meta::optimize::{optimize_rule, unique_byte, unique_table_from_select};
use piston_meta::{parse, parse_errstr, syntax, syntax_errstr, MetaData, ParseError, Range, Rule, Syntax};
use std::sync::Arc;

/// Checks a number property against the value its numeral reads as.
fn assert_number(d: &MetaData, name: &Arc<String>, value: f64) {
    match d {
        MetaData::F64(n, v) => {
            assert_eq!(n, name);
            assert_eq!(v.parse::<f64>().unwrap(), value);
        }
        _ => panic!("expected a number, found {:?}", d),
    }
}

/// A rule that reads numbers separated by whitespace, by referring to
/// itself by name.
fn self_referring(foo: &Arc<String>, num: &Arc<String>, property: Option<Arc<String>>) -> Rule {
    Rule::Sequence(Sequence {
        debug_id: 1,
        args: vec![
            Rule::Number(Number { debug_id: 2, property: Some(num.clone()), allow_underscore: false }),
            Rule::Optional(Box::new(Optional {
                debug_id: 3,
                rule: Rule::Sequence(Sequence {
                    debug_id: 4,
                    args: vec![
                        Rule::Whitespace(Whitespace { debug_id: 3, optional: false }),
                        Rule::Node(Node { name: foo.clone(), property, debug_id: 3, index: None }),
                    ],
                }),
            })),
        ],
    })
}

#[test]
fn no_rules() {
    assert_eq!(parse(&Syntax::new(), "", &mut vec![]), Err(Range::empty(0).wrap(ParseError::NoRules)));
}

#[test]
fn node_node_ref() {
    // Create a node rule the refers to itself.
    let foo: Arc<String> = Arc::new("foo".into());
    let num: Arc<String> = Arc::new("num".into());
    let node = self_referring(&foo, &num, Some(foo.clone()));

    // Replace self referencing names with direct references.
    let rule = Rule::Node(Node { name: foo.clone(), property: Some(foo.clone()), debug_id: 0, index: None });
    let mut rules = Syntax::new();
    rules.push(foo.clone(), node);
    rules.push(Arc::new("".into()), rule);
    update_refs(&mut rules);

    let text = "1 2 3";
    let mut data = vec![];
    assert_eq!(parse(&rules, text, &mut data), Ok(()));
    assert_eq!(data.len(), 9);
    assert_eq!(&data[0].data, &MetaData::StartNode(foo.clone()));
    assert_number(&data[1].data, &num, 1.0);
    assert_eq!(&data[2].data, &MetaData::StartNode(foo.clone()));
    assert_number(&data[3].data, &num, 2.0);
    assert_eq!(&data[4].data, &MetaData::StartNode(foo.clone()));
    assert_number(&data[5].data, &num, 3.0);
    assert_eq!(&data[6].data, &MetaData::EndNode(foo.clone()));
    assert_eq!(&data[7].data, &MetaData::EndNode(foo.clone()));
    assert_eq!(&data[8].data, &MetaData::EndNode(foo.clone()));
}

#[test]
fn rule_node_ref() {
    // Create a node rule the refers to itself.
    let foo: Arc<String> = Arc::new("foo".into());
    let num: Arc<String> = Arc::new("num".into());
    let node = self_referring(&foo, &num, None);

    // Replace self referencing names with direct references.
    let names = vec![foo.clone()];
    let mut rule = Rule::Node(Node { name: foo.clone(), property: None, debug_id: 0, index: None });
    rule.update_refs(&names);
    let mut rules = Syntax::new();
    rules.push(foo.clone(), node);
    rules.push(Arc::new("".into()), rule);
    update_refs(&mut rules);

    let text = "1 2 3";
    let mut data = vec![];
    parse(&rules, text, &mut data).unwrap();
    assert_eq!(data.len(), 3);
    assert_number(&data[0].data, &num, 1.0);
    assert_number(&data[1].data, &num, 2.0);
    assert_number(&data[2].data, &num, 3.0);
}

/// A select of tags.
fn select(args: &[&str]) -> Select {
    Select {
        debug_id: 0,
        args: args
            .iter()
            .map(|&n| {
                Rule::Tag(Tag { debug_id: 0, not: false, inverted: false, property: None, text: Arc::new(n.into()) })
            })
            .collect(),
    }
}

#[test]
fn test_1() {
    let sel = select(&["John", "Peter"]);
    let (table, unique_up_to) = unique_table_from_select(&sel, &[]);
    for i in 0..256 {
        if table[i] != 255 {
            println!("0x{:x}: {:?}", i, table[i]);
        }
        assert_eq!(
            table[i],
            match i {
                0x4a => 0,
                0x50 => 1,
                _ => 255,
            }
        );
    }
    assert_eq!(unique_up_to, 2);
}

#[test]
fn test_2() {
    let sel = select(&["John", "Peter", "Carl", "Johnathan"]);
    let (table, unique_up_to) = unique_table_from_select(&sel, &[]);
    for i in 0..256 {
        if table[i] != 255 {
            println!("0x{:x}: {:?}", i, table[i]);
        }
        assert_eq!(
            table[i],
            match i {
                0x43 => 2,
                0x4a => 0,
                0x50 => 1,
                _ => 255,
            }
        );
    }
    assert_eq!(unique_up_to, 3);
}

#[test]
fn test_empty() {
    let sel = select(&[]);
    let (table, unique_up_to) = unique_table_from_select(&sel, &[]);
    for i in 0..256 {
        assert_eq!(table[i], 255)
    }
    assert_eq!(unique_up_to, 0);
}

#[test]
fn test_type() {
    let rules = r#"
            100 type = {
                "f64":"f64"
                ["[" type:"arr" "]"]
                "thr":"thr_any"
            }
        "#;
    // Parse rules with meta language and convert to rules for parsing text.
    let rules = match syntax_errstr(rules) {
        Err(err) => {
            panic!("{}", err);
        }
        Ok(rules) => rules.optimize(),
    };
    let text = r#"[f64]"#;
    let mut data = vec![];
    match parse_errstr(&rules, text, &mut data) {
        Err(err) => {
            panic!("{}", err);
        }
        Ok(()) => {}
    };
}

/// Reads rules written in the meta language and parses text with them.
fn use_self_syntax(rules: &str, text: &str) -> Vec<Range<MetaData>> {
    let rules = match syntax_errstr(rules) {
        Err(err) => panic!("{}", err),
        Ok(rules) => rules,
    };
    let mut data = vec![];
    match parse_errstr(&rules, text, &mut data) {
        Err(err) => panic!("{}", err),
        Ok(()) => {}
    };
    data
}

#[test]
fn url_in_multiline_comments() {
    let text = r#"hi James!"#;
    let rules = r#"
        /* this is an url http://www.piston.rs */
        1 say_hi = ["hi" .w? {"James":"james" "Peter":"peter"} "!"]
        2 document = say_hi
    "#;
    let _ = use_self_syntax(rules, text);
}

#[test]
fn star_in_multiline_comments() {
    let text = r#"hi James!"#;
    let rules = r#"
        /* this is a comment with **** and some **** */
        1 say_hi = ["hi" .w? {"James":"james" "Peter":"peter"} "!"]
        2 document = say_hi
    "#;
    let _ = use_self_syntax(rules, text);
}

#[test]
fn nested_multiline_comments() {
    let text = r#"hi James!"#;
    let rules = r#"
        /* this is a nested comment /* hey I think /* this */ works */ */
        1 say_hi = ["hi" .w? {"James":"james" "Peter":"peter"} "!"]
        2 document = say_hi
    "#;
    let _ = use_self_syntax(rules, text);
}

#[test]
#[should_panic(expected = "Expected: `*/`")]
fn nested_multiline_comments_fail() {
    let text = r#"hi James!"#;
    let rules = r#"
        /* this is a nested comment /* hey I think /* this works, no? */ */
        1 say_hi = ["hi" .w? {"James":"james" "Peter":"peter"} "!"]
        2 document = say_hi
    "#;
    let _ = use_self_syntax(rules, text);
}

#[test]
fn say_hi_reads_properties() {
    let data = use_self_syntax(
        r#"
        1 say_hi = ["hi" .w? {"James":"james" "Peter":"peter"} "!"]
        2 document = say_hi
    "#,
        "hi Peter!",
    );
    assert_eq!(data.len(), 1);
    assert_eq!(data[0].data, MetaData::Bool(Arc::new("peter".into()), true));
}

#[test]
fn syntax_reports_error() {
    let res = syntax("1 x = [\"a\"");
    assert!(res.is_err());
    let msg = match syntax_errstr("1 x = [\"a\"") {
        Err(m) => m,
        Ok(_) => panic!("expected an error"),
    };
    assert!(msg.starts_with("Error "));
}

#[test]
fn optimize_makes_fast_select() {
    let sel = select(&["John", "Peter", "Carl"]);
    let rule = optimize_rule(&Rule::Select(sel), &[]);
    match rule {
        Rule::FastSelect(fs) => {
            assert!(!fs.tail);
            assert_eq!(fs.args.len(), 3);
            assert_eq!(fs.table[0x43], 2);
        }
        _ => panic!("expected a fast select"),
    }
}

#[test]
fn optimize_keeps_tail_select() {
    let sel = select(&["John", "Peter", "Jane"]);
    let rule = optimize_rule(&Rule::Select(sel), &[]);
    match rule {
        Rule::FastSelect(fs) => {
            assert!(fs.tail);
            assert_eq!(fs.args.len(), 3);
            match &fs.args[2] {
                Rule::Select(s) => assert_eq!(s.args.len(), 1),
                _ => panic!("expected a select over the rest"),
            }
        }
        _ => panic!("expected a fast select"),
    }
}

#[test]
fn optimize_keeps_small_select() {
    let sel = select(&["John", "Jane"]);
    let rule = optimize_rule(&Rule::Select(sel), &[]);
    match rule {
        Rule::Select(s) => assert_eq!(s.args.len(), 2),
        _ => panic!("expected a select"),
    }
}

#[test]
fn unique_byte_of_rules() {
    let tag = Rule::Tag(Tag { debug_id: 0, not: false, inverted: false, property: None, text: Arc::new("é".into()) });
    assert_eq!(unique_byte(&tag, &[]), Some(0xc3));
    let not_tag = Rule::Tag(Tag { debug_id: 0, not: true, inverted: false, property: None, text: Arc::new("a".into()) });
    assert_eq!(unique_byte(&not_tag, &[]), None);
    let node = Rule::Node(Node { name: Arc::new("x".into()), property: None, debug_id: 0, index: Some(0) });
    assert_eq!(unique_byte(&node, &[tag]), Some(0xc3));
    let empty = Rule::Sequence(Sequence { debug_id: 0, args: vec![] });
    assert_eq!(unique_byte(&empty, &[]), None);
}

/// The meta language written in itself, as the hard coded rules describe it.
const SELF_SYNTAX: &str = r#"
_seps: "[]{}():.!?\""
_opt: "optional"
_inv: "inverted"
_prop: "property"
_any: "any_characters"

0 multi_line_comment = ["/*" ..."*/"? .r?({
    [!"*/" "*" ..."*/"?]
    [multi_line_comment ..."*/"?]
    ["/" ..."*/"?]
}) "*/"]
1 comment = {multi_line_comment ["//" ..."\n"?]}
2 string = ["_" .._seps!:"name" ":" .w? .t?:"text"]
3 node = [.$:"id" .w! !"_" !"." .._seps!:"name" .w? "=" .w? rule:"rule"]
4 set = {.t!:"value" ["_" .._seps!:"ref"]}
5 set_opt = {.t?:"value" ["_" .._seps!:"ref"]}
6 opt = {"?":_opt "!":!_opt}
7 number = [".$" ?"_":"underscore" ?[":" set:_prop]]
8 text = [".t" {"?":"allow_empty" "!":!"allow_empty"} ?[":" set:_prop]]
9 reference = [!"_" !"." .._seps!:"name" ?[":" set:_prop]]
10 sequence = ["[" .w? .s!.(.w! rule:"rule") "]"]
11 select = ["{" .w? .s!.(.w! rule:"rule") "}"]
12 separated_by = [".s" opt ?".":"allow_trail"
    "(" .w? rule:"by" .w! rule:"rule" .w? ")"]
13 tag = [?"!":"not" set:"text" ?[":" ?"!":_inv set:_prop]]
14 optional = ["?" rule:"rule"]
15 not = ["!" rule:"rule"]
16 whitespace = [".w" opt]
17 until_any_or_whitespace = [".." set_opt:_any opt ?[":" set:_prop]]
18 until_any = ["..." set_opt:_any opt ?[":" set:_prop]]
19 repeat = [".r" opt "(" rule:"rule" ")"]
20 lines = [".l(" .w? rule:"rule" .w? ")"]
21 rule = {
    whitespace:"whitespace"
    until_any_or_whitespace:"until_any_or_whitespace"
    until_any:"until_any"
    lines:"lines"
    repeat:"repeat"
    number:"number"
    text:"text"
    reference:"reference"
    sequence:"sequence"
    select:"select"
    separated_by:"separated_by"
    tag:"tag"
    optional:"optional"
    not:"not"
}
22 document = [
    .l([.w? {string:"string" comment}])
    .l([.w? {node:"node" comment}])
    .w?
]
"#;

/// Sets every debug id in a rule to zero.
fn zero_ids(r: &mut Rule) {
    match r {
        Rule::Whitespace(x) => x.debug_id = 0,
        Rule::Tag(x) => x.debug_id = 0,
        Rule::UntilAny(x) => x.debug_id = 0,
        Rule::UntilAnyOrWhitespace(x) => x.debug_id = 0,
        Rule::Text(x) => x.debug_id = 0,
        Rule::Number(x) => x.debug_id = 0,
        Rule::Node(x) => x.debug_id = 0,
        Rule::Select(x) => {
            x.debug_id = 0;
            x.args.iter_mut().for_each(zero_ids);
        }
        Rule::Sequence(x) => {
            x.debug_id = 0;
            x.args.iter_mut().for_each(zero_ids);
        }
        Rule::FastSelect(x) => {
            x.debug_id = 0;
            x.args.iter_mut().for_each(zero_ids);
        }
        Rule::SeparateBy(x) => {
            x.debug_id = 0;
            zero_ids(&mut x.rule);
            zero_ids(&mut x.by);
        }
        Rule::Repeat(x) => {
            x.debug_id = 0;
            zero_ids(&mut x.rule);
        }
        Rule::Lines(x) => {
            x.debug_id = 0;
            zero_ids(&mut x.rule);
        }
        Rule::Optional(x) => {
            x.debug_id = 0;
            zero_ids(&mut x.rule);
        }
        Rule::Not(x) => {
            x.debug_id = 0;
            zero_ids(&mut x.rule);
        }
    }
}

#[test]
fn self_syntax_matches_hard_coded_rules() {
    let mut read = match syntax_errstr(SELF_SYNTAX) {
        Err(err) => panic!("{}", err),
        Ok(rules) => rules,
    };
    let mut hard_coded = piston_meta::bootstrap::rules();
    assert_eq!(read.names, hard_coded.names);
    read.rules.iter_mut().for_each(zero_ids);
    hard_coded.rules.iter_mut().for_each(zero_ids);
    for (a, b) in read.rules.iter().zip(hard_coded.rules.iter()) {
        assert_eq!(a, b);
    }
    assert_eq!(read.rules.len(), hard_coded.rules.len());
}

#[test]
fn self_syntax_reads_itself() {
    let rules1 = match syntax_errstr(SELF_SYNTAX) {
        Err(err) => panic!("{}", err),
        Ok(rules) => rules,
    };
    let hard_coded = piston_meta::bootstrap::rules();
    assert_eq!(rules1.names, hard_coded.names);
    let mut tokens = vec![];
    if let Err(err) = parse_errstr(&rules1, SELF_SYNTAX, &mut tokens) {
        panic!("{}", err);
    }
    let mut ignored = vec![];
    let rules2 = piston_meta::bootstrap::convert(&tokens, &mut ignored).unwrap();
    assert_eq!(rules1.names, rules2.names);
    assert!(rules1.rules == rules2.rules);
}

#[test]
fn optimizing_twice_changes_nothing() {
    let rule = Rule::Sequence(Sequence {
        debug_id: 0,
        args: vec![Rule::Select(select(&["a", "b", "ab"])), Rule::Select(select(&["x", "y"]))],
    });
    let once = optimize_rule(&rule, &[]);
    let twice = optimize_rule(&once, &[]);
    assert_eq!(format!("{:?}", once), format!("{:?}", twice));
    assert!(format!("{:?}", once).contains("FastSelect"));
}
