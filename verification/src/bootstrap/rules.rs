//! The rules of the meta language, in which rules are written.

use vstd::prelude::*;
use crate::{Syntax, SyntaxV};
use crate::text::arc_text;
use crate::meta_rules::{Rule, RuleV, Whitespace, Tag, UntilAny, UntilAnyOrWhitespace, Text, Number, Select, Sequence, SeparateBy, Repeat, Lines, Node, Optional, TokenV, UntilAnyV, TextV, NumberV, SelectV, SequenceV, SeparateByV, RepeatV, LinesV, NodeV, OptionalV, rules_view, lemma_rules_view, update_refs, args_updated};

verus! {

/// The names of the rules of the meta language.
pub open spec fn bootstrap_names() -> Seq<Seq<char>> {
    seq!["multi_line_comment"@, "comment"@, "string"@, "node"@, "set"@, "set_opt"@, "opt"@, "number"@, "text"@, "reference"@, "sequence"@, "select"@, "separated_by"@, "tag"@, "optional"@, "not"@, "whitespace"@, "until_any_or_whitespace"@, "until_any"@, "repeat"@, "lines"@, "rule"@, "document"@]
}

/// The rules of the meta language, before their references are updated.
pub open spec fn bootstrap_rules() -> Seq<RuleV> {
    seq![multi_line_comment_rule(), comment_rule(), string_rule(), node_rule(), set_rule(), set_opt_rule(), opt_rule(), number_rule(), text_rule(), reference_rule(), sequence_rule(), select_rule(), separated_by_rule(), tag_rule(), optional_rule(), not_rule(), whitespace_rule(), until_any_or_whitespace_rule(), until_any_rule(), repeat_rule(), lines_rule(), rule_rule(), document_rule()]
}

/// The syntax of the meta language.
pub open spec fn bootstrap_syntax() -> SyntaxV {
    SyntaxV { rules: args_updated(bootstrap_rules(), bootstrap_names()), names: bootstrap_names() }
}

/// The rule `multi_line_comment` of the meta language.
pub open spec fn multi_line_comment_rule() -> RuleV {
    RuleV::Sequence(SequenceV { debug_id: 1, args: seq![RuleV::Tag(TokenV { debug_id: 2, text: "/*"@, not: false, inverted: false, property: None }), RuleV::UntilAny(UntilAnyV { debug_id: 3, any_characters: "*/"@, optional: true, property: None }), RuleV::Repeat(RepeatV { debug_id: 4, rule: Box::new(RuleV::Select(SelectV { debug_id: 5, args: seq![RuleV::Sequence(SequenceV { debug_id: 6, args: seq![RuleV::Tag(TokenV { debug_id: 7, text: "*/"@, not: true, inverted: false, property: None }), RuleV::Tag(TokenV { debug_id: 8, text: "*"@, not: false, inverted: false, property: None }), RuleV::UntilAny(UntilAnyV { debug_id: 9, any_characters: "*/"@, optional: true, property: None })] }), RuleV::Sequence(SequenceV { debug_id: 10, args: seq![RuleV::Node(NodeV { debug_id: 11, name: "multi_line_comment"@, property: None, index: None }), RuleV::UntilAny(UntilAnyV { debug_id: 12, any_characters: "*/"@, optional: true, property: None })] }), RuleV::Sequence(SequenceV { debug_id: 13, args: seq![RuleV::Tag(TokenV { debug_id: 14, text: "/"@, not: false, inverted: false, property: None }), RuleV::UntilAny(UntilAnyV { debug_id: 15, any_characters: "*/"@, optional: true, property: None })] })] })), optional: true }), RuleV::Tag(TokenV { debug_id: 16, text: "*/"@, not: false, inverted: false, property: None })] })
}

/// The rule `comment` of the meta language.
pub open spec fn comment_rule() -> RuleV {
    RuleV::Select(SelectV { debug_id: 1001, args: seq![RuleV::Node(NodeV { debug_id: 1002, name: "multi_line_comment"@, property: None, index: None }), RuleV::Sequence(SequenceV { debug_id: 1003, args: seq![RuleV::Tag(TokenV { debug_id: 1004, text: "//"@, not: false, inverted: false, property: None }), RuleV::UntilAny(UntilAnyV { debug_id: 1005, any_characters: "\n"@, optional: true, property: None })] })] })
}

/// The rule `string` of the meta language.
pub open spec fn string_rule() -> RuleV {
    RuleV::Sequence(SequenceV { debug_id: 2001, args: seq![RuleV::Tag(TokenV { debug_id: 2002, text: "_"@, not: false, inverted: false, property: None }), RuleV::UntilAnyOrWhitespace(UntilAnyV { debug_id: 2003, any_characters: "[]{}():.!?\""@, optional: false, property: Some("name"@) }), RuleV::Tag(TokenV { debug_id: 2004, text: ":"@, not: false, inverted: false, property: None }), RuleV::Whitespace(Whitespace { debug_id: 2005, optional: true }), RuleV::Text(TextV { debug_id: 2006, allow_empty: true, property: Some("text"@) })] })
}

/// The rule `node` of the meta language.
pub open spec fn node_rule() -> RuleV {
    RuleV::Sequence(SequenceV { debug_id: 3001, args: seq![RuleV::Number(NumberV { debug_id: 3002, property: Some("id"@), allow_underscore: false }), RuleV::Whitespace(Whitespace { debug_id: 3003, optional: false }), RuleV::Tag(TokenV { debug_id: 3004, text: "_"@, not: true, inverted: false, property: None }), RuleV::Tag(TokenV { debug_id: 3005, text: "."@, not: true, inverted: false, property: None }), RuleV::UntilAnyOrWhitespace(UntilAnyV { debug_id: 3006, any_characters: "[]{}():.!?\""@, optional: false, property: Some("name"@) }), RuleV::Whitespace(Whitespace { debug_id: 3007, optional: true }), RuleV::Tag(TokenV { debug_id: 3008, text: "="@, not: false, inverted: false, property: None }), RuleV::Whitespace(Whitespace { debug_id: 3009, optional: true }), RuleV::Node(NodeV { debug_id: 3010, name: "rule"@, property: Some("rule"@), index: None })] })
}

/// The rule `set` of the meta language.
pub open spec fn set_rule() -> RuleV {
    RuleV::Select(SelectV { debug_id: 4001, args: seq![RuleV::Text(TextV { debug_id: 4002, allow_empty: false, property: Some("value"@) }), RuleV::Sequence(SequenceV { debug_id: 4003, args: seq![RuleV::Tag(TokenV { debug_id: 4004, text: "_"@, not: false, inverted: false, property: None }), RuleV::UntilAnyOrWhitespace(UntilAnyV { debug_id: 4005, any_characters: "[]{}():.!?\""@, optional: false, property: Some("ref"@) })] })] })
}

/// The rule `set_opt` of the meta language.
pub open spec fn set_opt_rule() -> RuleV {
    RuleV::Select(SelectV { debug_id: 5001, args: seq![RuleV::Text(TextV { debug_id: 5002, allow_empty: true, property: Some("value"@) }), RuleV::Sequence(SequenceV { debug_id: 5003, args: seq![RuleV::Tag(TokenV { debug_id: 5004, text: "_"@, not: false, inverted: false, property: None }), RuleV::UntilAnyOrWhitespace(UntilAnyV { debug_id: 5005, any_characters: "[]{}():.!?\""@, optional: false, property: Some("ref"@) })] })] })
}

/// The rule `opt` of the meta language.
pub open spec fn opt_rule() -> RuleV {
    RuleV::Select(SelectV { debug_id: 6001, args: seq![RuleV::Tag(TokenV { debug_id: 6002, text: "?"@, not: false, inverted: false, property: Some("optional"@) }), RuleV::Tag(TokenV { debug_id: 6003, text: "!"@, not: false, inverted: true, property: Some("optional"@) })] })
}

/// The rule `number` of the meta language.
pub open spec fn number_rule() -> RuleV {
    RuleV::Sequence(SequenceV { debug_id: 7001, args: seq![RuleV::Tag(TokenV { debug_id: 7002, text: ".$"@, not: false, inverted: false, property: None }), RuleV::Optional(OptionalV { debug_id: 7003, rule: Box::new(RuleV::Tag(TokenV { debug_id: 7004, text: "_"@, not: false, inverted: false, property: Some("underscore"@) })) }), RuleV::Optional(OptionalV { debug_id: 7004, rule: Box::new(RuleV::Sequence(SequenceV { debug_id: 7005, args: seq![RuleV::Tag(TokenV { debug_id: 7006, text: ":"@, not: false, inverted: false, property: None }), RuleV::Node(NodeV { debug_id: 7007, name: "set"@, property: Some("property"@), index: None })] })) })] })
}

/// The rule `text` of the meta language.
pub open spec fn text_rule() -> RuleV {
    RuleV::Sequence(SequenceV { debug_id: 8001, args: seq![RuleV::Tag(TokenV { debug_id: 8002, text: ".t"@, not: false, inverted: false, property: None }), RuleV::Select(SelectV { debug_id: 8003, args: seq![RuleV::Tag(TokenV { debug_id: 8004, text: "?"@, not: false, inverted: false, property: Some("allow_empty"@) }), RuleV::Tag(TokenV { debug_id: 8005, text: "!"@, not: false, inverted: true, property: Some("allow_empty"@) })] }), RuleV::Optional(OptionalV { debug_id: 8006, rule: Box::new(RuleV::Sequence(SequenceV { debug_id: 8007, args: seq![RuleV::Tag(TokenV { debug_id: 8008, text: ":"@, not: false, inverted: false, property: None }), RuleV::Node(NodeV { debug_id: 8009, name: "set"@, property: Some("property"@), index: None })] })) })] })
}

/// The rule `reference` of the meta language.
pub open spec fn reference_rule() -> RuleV {
    RuleV::Sequence(SequenceV { debug_id: 9001, args: seq![RuleV::Tag(TokenV { debug_id: 9002, text: "_"@, not: true, inverted: false, property: None }), RuleV::Tag(TokenV { debug_id: 9003, text: "."@, not: true, inverted: false, property: None }), RuleV::UntilAnyOrWhitespace(UntilAnyV { debug_id: 9004, any_characters: "[]{}():.!?\""@, optional: false, property: Some("name"@) }), RuleV::Optional(OptionalV { debug_id: 9005, rule: Box::new(RuleV::Sequence(SequenceV { debug_id: 9006, args: seq![RuleV::Tag(TokenV { debug_id: 9007, text: ":"@, not: false, inverted: false, property: None }), RuleV::Node(NodeV { debug_id: 9008, name: "set"@, property: Some("property"@), index: None })] })) })] })
}

/// The rule `sequence` of the meta language.
pub open spec fn sequence_rule() -> RuleV {
    RuleV::Sequence(SequenceV { debug_id: 10001, args: seq![RuleV::Tag(TokenV { debug_id: 10002, text: "["@, not: false, inverted: false, property: None }), RuleV::Whitespace(Whitespace { debug_id: 10003, optional: true }), RuleV::SeparateBy(SeparateByV { debug_id: 10004, rule: Box::new(RuleV::Node(NodeV { debug_id: 10006, name: "rule"@, property: Some("rule"@), index: None })), by: Box::new(RuleV::Whitespace(Whitespace { debug_id: 10005, optional: false })), optional: false, allow_trail: true }), RuleV::Tag(TokenV { debug_id: 10007, text: "]"@, not: false, inverted: false, property: None })] })
}

/// The rule `select` of the meta language.
pub open spec fn select_rule() -> RuleV {
    RuleV::Sequence(SequenceV { debug_id: 11001, args: seq![RuleV::Tag(TokenV { debug_id: 11002, text: "{"@, not: false, inverted: false, property: None }), RuleV::Whitespace(Whitespace { debug_id: 11003, optional: true }), RuleV::SeparateBy(SeparateByV { debug_id: 11004, rule: Box::new(RuleV::Node(NodeV { debug_id: 11006, name: "rule"@, property: Some("rule"@), index: None })), by: Box::new(RuleV::Whitespace(Whitespace { debug_id: 11005, optional: false })), optional: false, allow_trail: true }), RuleV::Tag(TokenV { debug_id: 11007, text: "}"@, not: false, inverted: false, property: None })] })
}

/// The rule `separated_by` of the meta language.
pub open spec fn separated_by_rule() -> RuleV {
    RuleV::Sequence(SequenceV { debug_id: 12001, args: seq![RuleV::Tag(TokenV { debug_id: 12002, text: ".s"@, not: false, inverted: false, property: None }), RuleV::Node(NodeV { debug_id: 12003, name: "opt"@, property: None, index: None }), RuleV::Optional(OptionalV { debug_id: 12004, rule: Box::new(RuleV::Tag(TokenV { debug_id: 12005, text: "."@, not: false, inverted: false, property: Some("allow_trail"@) })) }), RuleV::Tag(TokenV { debug_id: 12006, text: "("@, not: false, inverted: false, property: None }), RuleV::Whitespace(Whitespace { debug_id: 12007, optional: true }), RuleV::Node(NodeV { debug_id: 12008, name: "rule"@, property: Some("by"@), index: None }), RuleV::Whitespace(Whitespace { debug_id: 12009, optional: false }), RuleV::Node(NodeV { debug_id: 12010, name: "rule"@, property: Some("rule"@), index: None }), RuleV::Whitespace(Whitespace { debug_id: 12011, optional: true }), RuleV::Tag(TokenV { debug_id: 12012, text: ")"@, not: false, inverted: false, property: None })] })
}

/// The rule `tag` of the meta language.
pub open spec fn tag_rule() -> RuleV {
    RuleV::Sequence(SequenceV { debug_id: 13001, args: seq![RuleV::Optional(OptionalV { debug_id: 13002, rule: Box::new(RuleV::Tag(TokenV { debug_id: 13003, text: "!"@, not: false, inverted: false, property: Some("not"@) })) }), RuleV::Node(NodeV { debug_id: 13004, name: "set"@, property: Some("text"@), index: None }), RuleV::Optional(OptionalV { debug_id: 13005, rule: Box::new(RuleV::Sequence(SequenceV { debug_id: 13006, args: seq![RuleV::Tag(TokenV { debug_id: 13007, text: ":"@, not: false, inverted: false, property: None }), RuleV::Optional(OptionalV { debug_id: 13008, rule: Box::new(RuleV::Tag(TokenV { debug_id: 13009, text: "!"@, not: false, inverted: false, property: Some("inverted"@) })) }), RuleV::Node(NodeV { debug_id: 13010, name: "set"@, property: Some("property"@), index: None })] })) })] })
}

/// The rule `optional` of the meta language.
pub open spec fn optional_rule() -> RuleV {
    RuleV::Sequence(SequenceV { debug_id: 14001, args: seq![RuleV::Tag(TokenV { debug_id: 14002, text: "?"@, not: false, inverted: false, property: None }), RuleV::Node(NodeV { debug_id: 14003, name: "rule"@, property: Some("rule"@), index: None })] })
}

/// The rule `not` of the meta language.
pub open spec fn not_rule() -> RuleV {
    RuleV::Sequence(SequenceV { debug_id: 15001, args: seq![RuleV::Tag(TokenV { debug_id: 15002, text: "!"@, not: false, inverted: false, property: None }), RuleV::Node(NodeV { debug_id: 15003, name: "rule"@, property: Some("rule"@), index: None })] })
}

/// The rule `whitespace` of the meta language.
pub open spec fn whitespace_rule() -> RuleV {
    RuleV::Sequence(SequenceV { debug_id: 16002, args: seq![RuleV::Tag(TokenV { debug_id: 16003, text: ".w"@, not: false, inverted: false, property: None }), RuleV::Node(NodeV { debug_id: 16004, name: "opt"@, property: None, index: None })] })
}

/// The rule `until_any_or_whitespace` of the meta language.
pub open spec fn until_any_or_whitespace_rule() -> RuleV {
    RuleV::Sequence(SequenceV { debug_id: 17001, args: seq![RuleV::Tag(TokenV { debug_id: 17002, text: ".."@, not: false, inverted: false, property: None }), RuleV::Node(NodeV { debug_id: 17003, name: "set_opt"@, property: Some("any_characters"@), index: None }), RuleV::Node(NodeV { debug_id: 17004, name: "opt"@, property: None, index: None }), RuleV::Optional(OptionalV { debug_id: 17005, rule: Box::new(RuleV::Sequence(SequenceV { debug_id: 17006, args: seq![RuleV::Tag(TokenV { debug_id: 17007, text: ":"@, not: false, inverted: false, property: None }), RuleV::Node(NodeV { debug_id: 17008, name: "set"@, property: Some("property"@), index: None })] })) })] })
}

/// The rule `until_any` of the meta language.
pub open spec fn until_any_rule() -> RuleV {
    RuleV::Sequence(SequenceV { debug_id: 18001, args: seq![RuleV::Tag(TokenV { debug_id: 18002, text: "..."@, not: false, inverted: false, property: None }), RuleV::Node(NodeV { debug_id: 18003, name: "set_opt"@, property: Some("any_characters"@), index: None }), RuleV::Node(NodeV { debug_id: 18004, name: "opt"@, property: None, index: None }), RuleV::Optional(OptionalV { debug_id: 18005, rule: Box::new(RuleV::Sequence(SequenceV { debug_id: 18006, args: seq![RuleV::Tag(TokenV { debug_id: 18007, text: ":"@, not: false, inverted: false, property: None }), RuleV::Node(NodeV { debug_id: 18008, name: "set"@, property: Some("property"@), index: None })] })) })] })
}

/// The rule `repeat` of the meta language.
pub open spec fn repeat_rule() -> RuleV {
    RuleV::Sequence(SequenceV { debug_id: 19001, args: seq![RuleV::Tag(TokenV { debug_id: 19002, text: ".r"@, not: false, inverted: false, property: None }), RuleV::Node(NodeV { debug_id: 19003, name: "opt"@, property: None, index: None }), RuleV::Tag(TokenV { debug_id: 19004, text: "("@, not: false, inverted: false, property: None }), RuleV::Node(NodeV { debug_id: 19005, name: "rule"@, property: Some("rule"@), index: None }), RuleV::Tag(TokenV { debug_id: 19006, text: ")"@, not: false, inverted: false, property: None })] })
}

/// The rule `lines` of the meta language.
pub open spec fn lines_rule() -> RuleV {
    RuleV::Sequence(SequenceV { debug_id: 20001, args: seq![RuleV::Tag(TokenV { debug_id: 20002, text: ".l("@, not: false, inverted: false, property: None }), RuleV::Whitespace(Whitespace { debug_id: 20003, optional: true }), RuleV::Node(NodeV { debug_id: 20004, name: "rule"@, property: Some("rule"@), index: None }), RuleV::Whitespace(Whitespace { debug_id: 20005, optional: true }), RuleV::Tag(TokenV { debug_id: 20006, text: ")"@, not: false, inverted: false, property: None })] })
}

/// The rule `rule` of the meta language.
pub open spec fn rule_rule() -> RuleV {
    RuleV::Select(SelectV { debug_id: 21001, args: seq![RuleV::Node(NodeV { debug_id: 21002, name: "whitespace"@, property: Some("whitespace"@), index: None }), RuleV::Node(NodeV { debug_id: 21003, name: "until_any_or_whitespace"@, property: Some("until_any_or_whitespace"@), index: None }), RuleV::Node(NodeV { debug_id: 21004, name: "until_any"@, property: Some("until_any"@), index: None }), RuleV::Node(NodeV { debug_id: 21005, name: "lines"@, property: Some("lines"@), index: None }), RuleV::Node(NodeV { debug_id: 21006, name: "repeat"@, property: Some("repeat"@), index: None }), RuleV::Node(NodeV { debug_id: 21007, name: "number"@, property: Some("number"@), index: None }), RuleV::Node(NodeV { debug_id: 21008, name: "text"@, property: Some("text"@), index: None }), RuleV::Node(NodeV { debug_id: 21009, name: "reference"@, property: Some("reference"@), index: None }), RuleV::Node(NodeV { debug_id: 21010, name: "sequence"@, property: Some("sequence"@), index: None }), RuleV::Node(NodeV { debug_id: 21011, name: "select"@, property: Some("select"@), index: None }), RuleV::Node(NodeV { debug_id: 21012, name: "separated_by"@, property: Some("separated_by"@), index: None }), RuleV::Node(NodeV { debug_id: 21013, name: "tag"@, property: Some("tag"@), index: None }), RuleV::Node(NodeV { debug_id: 21013, name: "optional"@, property: Some("optional"@), index: None }), RuleV::Node(NodeV { debug_id: 21014, name: "not"@, property: Some("not"@), index: None })] })
}

/// The rule `document` of the meta language.
pub open spec fn document_rule() -> RuleV {
    RuleV::Sequence(SequenceV { debug_id: 22001, args: seq![RuleV::Lines(LinesV { debug_id: 22002, rule: Box::new(RuleV::Sequence(SequenceV { debug_id: 22003, args: seq![RuleV::Whitespace(Whitespace { debug_id: 22004, optional: true }), RuleV::Select(SelectV { debug_id: 22005, args: seq![RuleV::Node(NodeV { debug_id: 22006, name: "string"@, property: Some("string"@), index: None }), RuleV::Node(NodeV { debug_id: 22007, name: "comment"@, property: None, index: None })] })] })), indent: false }), RuleV::Lines(LinesV { debug_id: 22008, rule: Box::new(RuleV::Sequence(SequenceV { debug_id: 22009, args: seq![RuleV::Whitespace(Whitespace { debug_id: 22010, optional: true }), RuleV::Select(SelectV { debug_id: 22011, args: seq![RuleV::Node(NodeV { debug_id: 22012, name: "node"@, property: Some("node"@), index: None }), RuleV::Node(NodeV { debug_id: 22013, name: "comment"@, property: None, index: None })] })] })), indent: false }), RuleV::Whitespace(Whitespace { debug_id: 22014, optional: true })] })
}

/// A list of 2 rules.
fn rules_of2(r0: Rule, r1: Rule) -> (v: Vec<Rule>)
    ensures
        rules_view(v@) == seq![r0@, r1@],
{
    let mut v: Vec<Rule> = Vec::new();
    let ghost views = seq![r0@, r1@];
    v.push(r0);
    v.push(r1);
    proof {
        lemma_rules_view(v@);
        assert(rules_view(v@) =~= views);
    }
    v
}

/// A list of 3 rules.
fn rules_of3(r0: Rule, r1: Rule, r2: Rule) -> (v: Vec<Rule>)
    ensures
        rules_view(v@) == seq![r0@, r1@, r2@],
{
    let mut v: Vec<Rule> = Vec::new();
    let ghost views = seq![r0@, r1@, r2@];
    v.push(r0);
    v.push(r1);
    v.push(r2);
    proof {
        lemma_rules_view(v@);
        assert(rules_view(v@) =~= views);
    }
    v
}

/// A list of 4 rules.
fn rules_of4(r0: Rule, r1: Rule, r2: Rule, r3: Rule) -> (v: Vec<Rule>)
    ensures
        rules_view(v@) == seq![r0@, r1@, r2@, r3@],
{
    let mut v: Vec<Rule> = Vec::new();
    let ghost views = seq![r0@, r1@, r2@, r3@];
    v.push(r0);
    v.push(r1);
    v.push(r2);
    v.push(r3);
    proof {
        lemma_rules_view(v@);
        assert(rules_view(v@) =~= views);
    }
    v
}

/// A list of 5 rules.
fn rules_of5(r0: Rule, r1: Rule, r2: Rule, r3: Rule, r4: Rule) -> (v: Vec<Rule>)
    ensures
        rules_view(v@) == seq![r0@, r1@, r2@, r3@, r4@],
{
    let mut v: Vec<Rule> = Vec::new();
    let ghost views = seq![r0@, r1@, r2@, r3@, r4@];
    v.push(r0);
    v.push(r1);
    v.push(r2);
    v.push(r3);
    v.push(r4);
    proof {
        lemma_rules_view(v@);
        assert(rules_view(v@) =~= views);
    }
    v
}

/// A list of 9 rules.
fn rules_of9(r0: Rule, r1: Rule, r2: Rule, r3: Rule, r4: Rule, r5: Rule, r6: Rule, r7: Rule, r8: Rule) -> (v: Vec<Rule>)
    ensures
        rules_view(v@) == seq![r0@, r1@, r2@, r3@, r4@, r5@, r6@, r7@, r8@],
{
    let mut v: Vec<Rule> = Vec::new();
    let ghost views = seq![r0@, r1@, r2@, r3@, r4@, r5@, r6@, r7@, r8@];
    v.push(r0);
    v.push(r1);
    v.push(r2);
    v.push(r3);
    v.push(r4);
    v.push(r5);
    v.push(r6);
    v.push(r7);
    v.push(r8);
    proof {
        lemma_rules_view(v@);
        assert(rules_view(v@) =~= views);
    }
    v
}

/// A list of 10 rules.
fn rules_of10(r0: Rule, r1: Rule, r2: Rule, r3: Rule, r4: Rule, r5: Rule, r6: Rule, r7: Rule, r8: Rule, r9: Rule) -> (v: Vec<Rule>)
    ensures
        rules_view(v@) == seq![r0@, r1@, r2@, r3@, r4@, r5@, r6@, r7@, r8@, r9@],
{
    let mut v: Vec<Rule> = Vec::new();
    let ghost views = seq![r0@, r1@, r2@, r3@, r4@, r5@, r6@, r7@, r8@, r9@];
    v.push(r0);
    v.push(r1);
    v.push(r2);
    v.push(r3);
    v.push(r4);
    v.push(r5);
    v.push(r6);
    v.push(r7);
    v.push(r8);
    v.push(r9);
    proof {
        lemma_rules_view(v@);
        assert(rules_view(v@) =~= views);
    }
    v
}

/// A list of 14 rules.
fn rules_of14(r0: Rule, r1: Rule, r2: Rule, r3: Rule, r4: Rule, r5: Rule, r6: Rule, r7: Rule, r8: Rule, r9: Rule, r10: Rule, r11: Rule, r12: Rule, r13: Rule) -> (v: Vec<Rule>)
    ensures
        rules_view(v@) == seq![r0@, r1@, r2@, r3@, r4@, r5@, r6@, r7@, r8@, r9@, r10@, r11@, r12@, r13@],
{
    let mut v: Vec<Rule> = Vec::new();
    let ghost views = seq![r0@, r1@, r2@, r3@, r4@, r5@, r6@, r7@, r8@, r9@, r10@, r11@, r12@, r13@];
    v.push(r0);
    v.push(r1);
    v.push(r2);
    v.push(r3);
    v.push(r4);
    v.push(r5);
    v.push(r6);
    v.push(r7);
    v.push(r8);
    v.push(r9);
    v.push(r10);
    v.push(r11);
    v.push(r12);
    v.push(r13);
    proof {
        lemma_rules_view(v@);
        assert(rules_view(v@) =~= views);
    }
    v
}

/// Makes the rule `multi_line_comment` of the meta language.
fn make_multi_line_comment() -> (r: Rule)
    ensures
        r@ == multi_line_comment_rule(),
{
    let r1 = Rule::Tag(Tag { debug_id: 2, text: arc_text("/*"), not: false, inverted: false, property: None });
    proof {
        assert(r1@ == RuleV::Tag(TokenV { debug_id: 2, text: "/*"@, not: false, inverted: false, property: None }));
    }
    let r2 = Rule::UntilAny(UntilAny { debug_id: 3, any_characters: arc_text("*/"), optional: true, property: None });
    proof {
        assert(r2@ == RuleV::UntilAny(UntilAnyV { debug_id: 3, any_characters: "*/"@, optional: true, property: None }));
    }
    let r3 = Rule::Tag(Tag { debug_id: 7, text: arc_text("*/"), not: true, inverted: false, property: None });
    proof {
        assert(r3@ == RuleV::Tag(TokenV { debug_id: 7, text: "*/"@, not: true, inverted: false, property: None }));
    }
    let r4 = Rule::Tag(Tag { debug_id: 8, text: arc_text("*"), not: false, inverted: false, property: None });
    proof {
        assert(r4@ == RuleV::Tag(TokenV { debug_id: 8, text: "*"@, not: false, inverted: false, property: None }));
    }
    let r5 = Rule::UntilAny(UntilAny { debug_id: 9, any_characters: arc_text("*/"), optional: true, property: None });
    proof {
        assert(r5@ == RuleV::UntilAny(UntilAnyV { debug_id: 9, any_characters: "*/"@, optional: true, property: None }));
    }
    let r6 = Rule::Sequence(Sequence { debug_id: 6, args: rules_of3(r3, r4, r5) });
    proof {
        assert(r6@ == RuleV::Sequence(SequenceV { debug_id: 6, args: seq![RuleV::Tag(TokenV { debug_id: 7, text: "*/"@, not: true, inverted: false, property: None }), RuleV::Tag(TokenV { debug_id: 8, text: "*"@, not: false, inverted: false, property: None }), RuleV::UntilAny(UntilAnyV { debug_id: 9, any_characters: "*/"@, optional: true, property: None })] }));
    }
    let r7 = Rule::Node(Node { debug_id: 11, name: arc_text("multi_line_comment"), property: None, index: None });
    proof {
        assert(r7@ == RuleV::Node(NodeV { debug_id: 11, name: "multi_line_comment"@, property: None, index: None }));
    }
    let r8 = Rule::UntilAny(UntilAny { debug_id: 12, any_characters: arc_text("*/"), optional: true, property: None });
    proof {
        assert(r8@ == RuleV::UntilAny(UntilAnyV { debug_id: 12, any_characters: "*/"@, optional: true, property: None }));
    }
    let r9 = Rule::Sequence(Sequence { debug_id: 10, args: rules_of2(r7, r8) });
    proof {
        assert(r9@ == RuleV::Sequence(SequenceV { debug_id: 10, args: seq![RuleV::Node(NodeV { debug_id: 11, name: "multi_line_comment"@, property: None, index: None }), RuleV::UntilAny(UntilAnyV { debug_id: 12, any_characters: "*/"@, optional: true, property: None })] }));
    }
    let r10 = Rule::Tag(Tag { debug_id: 14, text: arc_text("/"), not: false, inverted: false, property: None });
    proof {
        assert(r10@ == RuleV::Tag(TokenV { debug_id: 14, text: "/"@, not: false, inverted: false, property: None }));
    }
    let r11 = Rule::UntilAny(UntilAny { debug_id: 15, any_characters: arc_text("*/"), optional: true, property: None });
    proof {
        assert(r11@ == RuleV::UntilAny(UntilAnyV { debug_id: 15, any_characters: "*/"@, optional: true, property: None }));
    }
    let r12 = Rule::Sequence(Sequence { debug_id: 13, args: rules_of2(r10, r11) });
    proof {
        assert(r12@ == RuleV::Sequence(SequenceV { debug_id: 13, args: seq![RuleV::Tag(TokenV { debug_id: 14, text: "/"@, not: false, inverted: false, property: None }), RuleV::UntilAny(UntilAnyV { debug_id: 15, any_characters: "*/"@, optional: true, property: None })] }));
    }
    let r13 = Rule::Select(Select { debug_id: 5, args: rules_of3(r6, r9, r12) });
    proof {
        assert(r13@ == RuleV::Select(SelectV { debug_id: 5, args: seq![RuleV::Sequence(SequenceV { debug_id: 6, args: seq![RuleV::Tag(TokenV { debug_id: 7, text: "*/"@, not: true, inverted: false, property: None }), RuleV::Tag(TokenV { debug_id: 8, text: "*"@, not: false, inverted: false, property: None }), RuleV::UntilAny(UntilAnyV { debug_id: 9, any_characters: "*/"@, optional: true, property: None })] }), RuleV::Sequence(SequenceV { debug_id: 10, args: seq![RuleV::Node(NodeV { debug_id: 11, name: "multi_line_comment"@, property: None, index: None }), RuleV::UntilAny(UntilAnyV { debug_id: 12, any_characters: "*/"@, optional: true, property: None })] }), RuleV::Sequence(SequenceV { debug_id: 13, args: seq![RuleV::Tag(TokenV { debug_id: 14, text: "/"@, not: false, inverted: false, property: None }), RuleV::UntilAny(UntilAnyV { debug_id: 15, any_characters: "*/"@, optional: true, property: None })] })] }));
    }
    let r14 = Rule::Repeat(Box::new(Repeat { debug_id: 4, rule: r13, optional: true }));
    proof {
        assert(r14@ == RuleV::Repeat(RepeatV { debug_id: 4, rule: Box::new(RuleV::Select(SelectV { debug_id: 5, args: seq![RuleV::Sequence(SequenceV { debug_id: 6, args: seq![RuleV::Tag(TokenV { debug_id: 7, text: "*/"@, not: true, inverted: false, property: None }), RuleV::Tag(TokenV { debug_id: 8, text: "*"@, not: false, inverted: false, property: None }), RuleV::UntilAny(UntilAnyV { debug_id: 9, any_characters: "*/"@, optional: true, property: None })] }), RuleV::Sequence(SequenceV { debug_id: 10, args: seq![RuleV::Node(NodeV { debug_id: 11, name: "multi_line_comment"@, property: None, index: None }), RuleV::UntilAny(UntilAnyV { debug_id: 12, any_characters: "*/"@, optional: true, property: None })] }), RuleV::Sequence(SequenceV { debug_id: 13, args: seq![RuleV::Tag(TokenV { debug_id: 14, text: "/"@, not: false, inverted: false, property: None }), RuleV::UntilAny(UntilAnyV { debug_id: 15, any_characters: "*/"@, optional: true, property: None })] })] })), optional: true }));
    }
    let r15 = Rule::Tag(Tag { debug_id: 16, text: arc_text("*/"), not: false, inverted: false, property: None });
    proof {
        assert(r15@ == RuleV::Tag(TokenV { debug_id: 16, text: "*/"@, not: false, inverted: false, property: None }));
    }
    let r16 = Rule::Sequence(Sequence { debug_id: 1, args: rules_of4(r1, r2, r14, r15) });
    proof {
        assert(r16@ == RuleV::Sequence(SequenceV { debug_id: 1, args: seq![RuleV::Tag(TokenV { debug_id: 2, text: "/*"@, not: false, inverted: false, property: None }), RuleV::UntilAny(UntilAnyV { debug_id: 3, any_characters: "*/"@, optional: true, property: None }), RuleV::Repeat(RepeatV { debug_id: 4, rule: Box::new(RuleV::Select(SelectV { debug_id: 5, args: seq![RuleV::Sequence(SequenceV { debug_id: 6, args: seq![RuleV::Tag(TokenV { debug_id: 7, text: "*/"@, not: true, inverted: false, property: None }), RuleV::Tag(TokenV { debug_id: 8, text: "*"@, not: false, inverted: false, property: None }), RuleV::UntilAny(UntilAnyV { debug_id: 9, any_characters: "*/"@, optional: true, property: None })] }), RuleV::Sequence(SequenceV { debug_id: 10, args: seq![RuleV::Node(NodeV { debug_id: 11, name: "multi_line_comment"@, property: None, index: None }), RuleV::UntilAny(UntilAnyV { debug_id: 12, any_characters: "*/"@, optional: true, property: None })] }), RuleV::Sequence(SequenceV { debug_id: 13, args: seq![RuleV::Tag(TokenV { debug_id: 14, text: "/"@, not: false, inverted: false, property: None }), RuleV::UntilAny(UntilAnyV { debug_id: 15, any_characters: "*/"@, optional: true, property: None })] })] })), optional: true }), RuleV::Tag(TokenV { debug_id: 16, text: "*/"@, not: false, inverted: false, property: None })] }));
    }
    r16
}

/// Makes the rule `comment` of the meta language.
fn make_comment() -> (r: Rule)
    ensures
        r@ == comment_rule(),
{
    let r1 = Rule::Node(Node { debug_id: 1002, name: arc_text("multi_line_comment"), property: None, index: None });
    proof {
        assert(r1@ == RuleV::Node(NodeV { debug_id: 1002, name: "multi_line_comment"@, property: None, index: None }));
    }
    let r2 = Rule::Tag(Tag { debug_id: 1004, text: arc_text("//"), not: false, inverted: false, property: None });
    proof {
        assert(r2@ == RuleV::Tag(TokenV { debug_id: 1004, text: "//"@, not: false, inverted: false, property: None }));
    }
    let r3 = Rule::UntilAny(UntilAny { debug_id: 1005, any_characters: arc_text("\n"), optional: true, property: None });
    proof {
        assert(r3@ == RuleV::UntilAny(UntilAnyV { debug_id: 1005, any_characters: "\n"@, optional: true, property: None }));
    }
    let r4 = Rule::Sequence(Sequence { debug_id: 1003, args: rules_of2(r2, r3) });
    proof {
        assert(r4@ == RuleV::Sequence(SequenceV { debug_id: 1003, args: seq![RuleV::Tag(TokenV { debug_id: 1004, text: "//"@, not: false, inverted: false, property: None }), RuleV::UntilAny(UntilAnyV { debug_id: 1005, any_characters: "\n"@, optional: true, property: None })] }));
    }
    let r5 = Rule::Select(Select { debug_id: 1001, args: rules_of2(r1, r4) });
    proof {
        assert(r5@ == RuleV::Select(SelectV { debug_id: 1001, args: seq![RuleV::Node(NodeV { debug_id: 1002, name: "multi_line_comment"@, property: None, index: None }), RuleV::Sequence(SequenceV { debug_id: 1003, args: seq![RuleV::Tag(TokenV { debug_id: 1004, text: "//"@, not: false, inverted: false, property: None }), RuleV::UntilAny(UntilAnyV { debug_id: 1005, any_characters: "\n"@, optional: true, property: None })] })] }));
    }
    r5
}

/// Makes the rule `string` of the meta language.
fn make_string() -> (r: Rule)
    ensures
        r@ == string_rule(),
{
    let r1 = Rule::Tag(Tag { debug_id: 2002, text: arc_text("_"), not: false, inverted: false, property: None });
    proof {
        assert(r1@ == RuleV::Tag(TokenV { debug_id: 2002, text: "_"@, not: false, inverted: false, property: None }));
    }
    let r2 = Rule::UntilAnyOrWhitespace(UntilAnyOrWhitespace { debug_id: 2003, any_characters: arc_text("[]{}():.!?\""), optional: false, property: Some(arc_text("name")) });
    proof {
        assert(r2@ == RuleV::UntilAnyOrWhitespace(UntilAnyV { debug_id: 2003, any_characters: "[]{}():.!?\""@, optional: false, property: Some("name"@) }));
    }
    let r3 = Rule::Tag(Tag { debug_id: 2004, text: arc_text(":"), not: false, inverted: false, property: None });
    proof {
        assert(r3@ == RuleV::Tag(TokenV { debug_id: 2004, text: ":"@, not: false, inverted: false, property: None }));
    }
    let r4 = Rule::Whitespace(Whitespace { debug_id: 2005, optional: true });
    proof {
        assert(r4@ == RuleV::Whitespace(Whitespace { debug_id: 2005, optional: true }));
    }
    let r5 = Rule::Text(Text { debug_id: 2006, allow_empty: true, property: Some(arc_text("text")) });
    proof {
        assert(r5@ == RuleV::Text(TextV { debug_id: 2006, allow_empty: true, property: Some("text"@) }));
    }
    let r6 = Rule::Sequence(Sequence { debug_id: 2001, args: rules_of5(r1, r2, r3, r4, r5) });
    proof {
        assert(r6@ == RuleV::Sequence(SequenceV { debug_id: 2001, args: seq![RuleV::Tag(TokenV { debug_id: 2002, text: "_"@, not: false, inverted: false, property: None }), RuleV::UntilAnyOrWhitespace(UntilAnyV { debug_id: 2003, any_characters: "[]{}():.!?\""@, optional: false, property: Some("name"@) }), RuleV::Tag(TokenV { debug_id: 2004, text: ":"@, not: false, inverted: false, property: None }), RuleV::Whitespace(Whitespace { debug_id: 2005, optional: true }), RuleV::Text(TextV { debug_id: 2006, allow_empty: true, property: Some("text"@) })] }));
    }
    r6
}

/// Makes the rule `node` of the meta language.
fn make_node() -> (r: Rule)
    ensures
        r@ == node_rule(),
{
    let r1 = Rule::Number(Number { debug_id: 3002, property: Some(arc_text("id")), allow_underscore: false });
    proof {
        assert(r1@ == RuleV::Number(NumberV { debug_id: 3002, property: Some("id"@), allow_underscore: false }));
    }
    let r2 = Rule::Whitespace(Whitespace { debug_id: 3003, optional: false });
    proof {
        assert(r2@ == RuleV::Whitespace(Whitespace { debug_id: 3003, optional: false }));
    }
    let r3 = Rule::Tag(Tag { debug_id: 3004, text: arc_text("_"), not: true, inverted: false, property: None });
    proof {
        assert(r3@ == RuleV::Tag(TokenV { debug_id: 3004, text: "_"@, not: true, inverted: false, property: None }));
    }
    let r4 = Rule::Tag(Tag { debug_id: 3005, text: arc_text("."), not: true, inverted: false, property: None });
    proof {
        assert(r4@ == RuleV::Tag(TokenV { debug_id: 3005, text: "."@, not: true, inverted: false, property: None }));
    }
    let r5 = Rule::UntilAnyOrWhitespace(UntilAnyOrWhitespace { debug_id: 3006, any_characters: arc_text("[]{}():.!?\""), optional: false, property: Some(arc_text("name")) });
    proof {
        assert(r5@ == RuleV::UntilAnyOrWhitespace(UntilAnyV { debug_id: 3006, any_characters: "[]{}():.!?\""@, optional: false, property: Some("name"@) }));
    }
    let r6 = Rule::Whitespace(Whitespace { debug_id: 3007, optional: true });
    proof {
        assert(r6@ == RuleV::Whitespace(Whitespace { debug_id: 3007, optional: true }));
    }
    let r7 = Rule::Tag(Tag { debug_id: 3008, text: arc_text("="), not: false, inverted: false, property: None });
    proof {
        assert(r7@ == RuleV::Tag(TokenV { debug_id: 3008, text: "="@, not: false, inverted: false, property: None }));
    }
    let r8 = Rule::Whitespace(Whitespace { debug_id: 3009, optional: true });
    proof {
        assert(r8@ == RuleV::Whitespace(Whitespace { debug_id: 3009, optional: true }));
    }
    let r9 = Rule::Node(Node { debug_id: 3010, name: arc_text("rule"), property: Some(arc_text("rule")), index: None });
    proof {
        assert(r9@ == RuleV::Node(NodeV { debug_id: 3010, name: "rule"@, property: Some("rule"@), index: None }));
    }
    let r10 = Rule::Sequence(Sequence { debug_id: 3001, args: rules_of9(r1, r2, r3, r4, r5, r6, r7, r8, r9) });
    proof {
        assert(r10@ == RuleV::Sequence(SequenceV { debug_id: 3001, args: seq![RuleV::Number(NumberV { debug_id: 3002, property: Some("id"@), allow_underscore: false }), RuleV::Whitespace(Whitespace { debug_id: 3003, optional: false }), RuleV::Tag(TokenV { debug_id: 3004, text: "_"@, not: true, inverted: false, property: None }), RuleV::Tag(TokenV { debug_id: 3005, text: "."@, not: true, inverted: false, property: None }), RuleV::UntilAnyOrWhitespace(UntilAnyV { debug_id: 3006, any_characters: "[]{}():.!?\""@, optional: false, property: Some("name"@) }), RuleV::Whitespace(Whitespace { debug_id: 3007, optional: true }), RuleV::Tag(TokenV { debug_id: 3008, text: "="@, not: false, inverted: false, property: None }), RuleV::Whitespace(Whitespace { debug_id: 3009, optional: true }), RuleV::Node(NodeV { debug_id: 3010, name: "rule"@, property: Some("rule"@), index: None })] }));
    }
    r10
}

/// Makes the rule `set` of the meta language.
fn make_set() -> (r: Rule)
    ensures
        r@ == set_rule(),
{
    let r1 = Rule::Text(Text { debug_id: 4002, allow_empty: false, property: Some(arc_text("value")) });
    proof {
        assert(r1@ == RuleV::Text(TextV { debug_id: 4002, allow_empty: false, property: Some("value"@) }));
    }
    let r2 = Rule::Tag(Tag { debug_id: 4004, text: arc_text("_"), not: false, inverted: false, property: None });
    proof {
        assert(r2@ == RuleV::Tag(TokenV { debug_id: 4004, text: "_"@, not: false, inverted: false, property: None }));
    }
    let r3 = Rule::UntilAnyOrWhitespace(UntilAnyOrWhitespace { debug_id: 4005, any_characters: arc_text("[]{}():.!?\""), optional: false, property: Some(arc_text("ref")) });
    proof {
        assert(r3@ == RuleV::UntilAnyOrWhitespace(UntilAnyV { debug_id: 4005, any_characters: "[]{}():.!?\""@, optional: false, property: Some("ref"@) }));
    }
    let r4 = Rule::Sequence(Sequence { debug_id: 4003, args: rules_of2(r2, r3) });
    proof {
        assert(r4@ == RuleV::Sequence(SequenceV { debug_id: 4003, args: seq![RuleV::Tag(TokenV { debug_id: 4004, text: "_"@, not: false, inverted: false, property: None }), RuleV::UntilAnyOrWhitespace(UntilAnyV { debug_id: 4005, any_characters: "[]{}():.!?\""@, optional: false, property: Some("ref"@) })] }));
    }
    let r5 = Rule::Select(Select { debug_id: 4001, args: rules_of2(r1, r4) });
    proof {
        assert(r5@ == RuleV::Select(SelectV { debug_id: 4001, args: seq![RuleV::Text(TextV { debug_id: 4002, allow_empty: false, property: Some("value"@) }), RuleV::Sequence(SequenceV { debug_id: 4003, args: seq![RuleV::Tag(TokenV { debug_id: 4004, text: "_"@, not: false, inverted: false, property: None }), RuleV::UntilAnyOrWhitespace(UntilAnyV { debug_id: 4005, any_characters: "[]{}():.!?\""@, optional: false, property: Some("ref"@) })] })] }));
    }
    r5
}

/// Makes the rule `set_opt` of the meta language.
fn make_set_opt() -> (r: Rule)
    ensures
        r@ == set_opt_rule(),
{
    let r1 = Rule::Text(Text { debug_id: 5002, allow_empty: true, property: Some(arc_text("value")) });
    proof {
        assert(r1@ == RuleV::Text(TextV { debug_id: 5002, allow_empty: true, property: Some("value"@) }));
    }
    let r2 = Rule::Tag(Tag { debug_id: 5004, text: arc_text("_"), not: false, inverted: false, property: None });
    proof {
        assert(r2@ == RuleV::Tag(TokenV { debug_id: 5004, text: "_"@, not: false, inverted: false, property: None }));
    }
    let r3 = Rule::UntilAnyOrWhitespace(UntilAnyOrWhitespace { debug_id: 5005, any_characters: arc_text("[]{}():.!?\""), optional: false, property: Some(arc_text("ref")) });
    proof {
        assert(r3@ == RuleV::UntilAnyOrWhitespace(UntilAnyV { debug_id: 5005, any_characters: "[]{}():.!?\""@, optional: false, property: Some("ref"@) }));
    }
    let r4 = Rule::Sequence(Sequence { debug_id: 5003, args: rules_of2(r2, r3) });
    proof {
        assert(r4@ == RuleV::Sequence(SequenceV { debug_id: 5003, args: seq![RuleV::Tag(TokenV { debug_id: 5004, text: "_"@, not: false, inverted: false, property: None }), RuleV::UntilAnyOrWhitespace(UntilAnyV { debug_id: 5005, any_characters: "[]{}():.!?\""@, optional: false, property: Some("ref"@) })] }));
    }
    let r5 = Rule::Select(Select { debug_id: 5001, args: rules_of2(r1, r4) });
    proof {
        assert(r5@ == RuleV::Select(SelectV { debug_id: 5001, args: seq![RuleV::Text(TextV { debug_id: 5002, allow_empty: true, property: Some("value"@) }), RuleV::Sequence(SequenceV { debug_id: 5003, args: seq![RuleV::Tag(TokenV { debug_id: 5004, text: "_"@, not: false, inverted: false, property: None }), RuleV::UntilAnyOrWhitespace(UntilAnyV { debug_id: 5005, any_characters: "[]{}():.!?\""@, optional: false, property: Some("ref"@) })] })] }));
    }
    r5
}

/// Makes the rule `opt` of the meta language.
fn make_opt() -> (r: Rule)
    ensures
        r@ == opt_rule(),
{
    let r1 = Rule::Tag(Tag { debug_id: 6002, text: arc_text("?"), not: false, inverted: false, property: Some(arc_text("optional")) });
    proof {
        assert(r1@ == RuleV::Tag(TokenV { debug_id: 6002, text: "?"@, not: false, inverted: false, property: Some("optional"@) }));
    }
    let r2 = Rule::Tag(Tag { debug_id: 6003, text: arc_text("!"), not: false, inverted: true, property: Some(arc_text("optional")) });
    proof {
        assert(r2@ == RuleV::Tag(TokenV { debug_id: 6003, text: "!"@, not: false, inverted: true, property: Some("optional"@) }));
    }
    let r3 = Rule::Select(Select { debug_id: 6001, args: rules_of2(r1, r2) });
    proof {
        assert(r3@ == RuleV::Select(SelectV { debug_id: 6001, args: seq![RuleV::Tag(TokenV { debug_id: 6002, text: "?"@, not: false, inverted: false, property: Some("optional"@) }), RuleV::Tag(TokenV { debug_id: 6003, text: "!"@, not: false, inverted: true, property: Some("optional"@) })] }));
    }
    r3
}

/// Makes the rule `number` of the meta language.
fn make_number() -> (r: Rule)
    ensures
        r@ == number_rule(),
{
    let r1 = Rule::Tag(Tag { debug_id: 7002, text: arc_text(".$"), not: false, inverted: false, property: None });
    proof {
        assert(r1@ == RuleV::Tag(TokenV { debug_id: 7002, text: ".$"@, not: false, inverted: false, property: None }));
    }
    let r2 = Rule::Tag(Tag { debug_id: 7004, text: arc_text("_"), not: false, inverted: false, property: Some(arc_text("underscore")) });
    proof {
        assert(r2@ == RuleV::Tag(TokenV { debug_id: 7004, text: "_"@, not: false, inverted: false, property: Some("underscore"@) }));
    }
    let r3 = Rule::Optional(Box::new(Optional { debug_id: 7003, rule: r2 }));
    proof {
        assert(r3@ == RuleV::Optional(OptionalV { debug_id: 7003, rule: Box::new(RuleV::Tag(TokenV { debug_id: 7004, text: "_"@, not: false, inverted: false, property: Some("underscore"@) })) }));
    }
    let r4 = Rule::Tag(Tag { debug_id: 7006, text: arc_text(":"), not: false, inverted: false, property: None });
    proof {
        assert(r4@ == RuleV::Tag(TokenV { debug_id: 7006, text: ":"@, not: false, inverted: false, property: None }));
    }
    let r5 = Rule::Node(Node { debug_id: 7007, name: arc_text("set"), property: Some(arc_text("property")), index: None });
    proof {
        assert(r5@ == RuleV::Node(NodeV { debug_id: 7007, name: "set"@, property: Some("property"@), index: None }));
    }
    let r6 = Rule::Sequence(Sequence { debug_id: 7005, args: rules_of2(r4, r5) });
    proof {
        assert(r6@ == RuleV::Sequence(SequenceV { debug_id: 7005, args: seq![RuleV::Tag(TokenV { debug_id: 7006, text: ":"@, not: false, inverted: false, property: None }), RuleV::Node(NodeV { debug_id: 7007, name: "set"@, property: Some("property"@), index: None })] }));
    }
    let r7 = Rule::Optional(Box::new(Optional { debug_id: 7004, rule: r6 }));
    proof {
        assert(r7@ == RuleV::Optional(OptionalV { debug_id: 7004, rule: Box::new(RuleV::Sequence(SequenceV { debug_id: 7005, args: seq![RuleV::Tag(TokenV { debug_id: 7006, text: ":"@, not: false, inverted: false, property: None }), RuleV::Node(NodeV { debug_id: 7007, name: "set"@, property: Some("property"@), index: None })] })) }));
    }
    let r8 = Rule::Sequence(Sequence { debug_id: 7001, args: rules_of3(r1, r3, r7) });
    proof {
        assert(r8@ == RuleV::Sequence(SequenceV { debug_id: 7001, args: seq![RuleV::Tag(TokenV { debug_id: 7002, text: ".$"@, not: false, inverted: false, property: None }), RuleV::Optional(OptionalV { debug_id: 7003, rule: Box::new(RuleV::Tag(TokenV { debug_id: 7004, text: "_"@, not: false, inverted: false, property: Some("underscore"@) })) }), RuleV::Optional(OptionalV { debug_id: 7004, rule: Box::new(RuleV::Sequence(SequenceV { debug_id: 7005, args: seq![RuleV::Tag(TokenV { debug_id: 7006, text: ":"@, not: false, inverted: false, property: None }), RuleV::Node(NodeV { debug_id: 7007, name: "set"@, property: Some("property"@), index: None })] })) })] }));
    }
    r8
}

/// Makes the rule `text` of the meta language.
fn make_text() -> (r: Rule)
    ensures
        r@ == text_rule(),
{
    let r1 = Rule::Tag(Tag { debug_id: 8002, text: arc_text(".t"), not: false, inverted: false, property: None });
    proof {
        assert(r1@ == RuleV::Tag(TokenV { debug_id: 8002, text: ".t"@, not: false, inverted: false, property: None }));
    }
    let r2 = Rule::Tag(Tag { debug_id: 8004, text: arc_text("?"), not: false, inverted: false, property: Some(arc_text("allow_empty")) });
    proof {
        assert(r2@ == RuleV::Tag(TokenV { debug_id: 8004, text: "?"@, not: false, inverted: false, property: Some("allow_empty"@) }));
    }
    let r3 = Rule::Tag(Tag { debug_id: 8005, text: arc_text("!"), not: false, inverted: true, property: Some(arc_text("allow_empty")) });
    proof {
        assert(r3@ == RuleV::Tag(TokenV { debug_id: 8005, text: "!"@, not: false, inverted: true, property: Some("allow_empty"@) }));
    }
    let r4 = Rule::Select(Select { debug_id: 8003, args: rules_of2(r2, r3) });
    proof {
        assert(r4@ == RuleV::Select(SelectV { debug_id: 8003, args: seq![RuleV::Tag(TokenV { debug_id: 8004, text: "?"@, not: false, inverted: false, property: Some("allow_empty"@) }), RuleV::Tag(TokenV { debug_id: 8005, text: "!"@, not: false, inverted: true, property: Some("allow_empty"@) })] }));
    }
    let r5 = Rule::Tag(Tag { debug_id: 8008, text: arc_text(":"), not: false, inverted: false, property: None });
    proof {
        assert(r5@ == RuleV::Tag(TokenV { debug_id: 8008, text: ":"@, not: false, inverted: false, property: None }));
    }
    let r6 = Rule::Node(Node { debug_id: 8009, name: arc_text("set"), property: Some(arc_text("property")), index: None });
    proof {
        assert(r6@ == RuleV::Node(NodeV { debug_id: 8009, name: "set"@, property: Some("property"@), index: None }));
    }
    let r7 = Rule::Sequence(Sequence { debug_id: 8007, args: rules_of2(r5, r6) });
    proof {
        assert(r7@ == RuleV::Sequence(SequenceV { debug_id: 8007, args: seq![RuleV::Tag(TokenV { debug_id: 8008, text: ":"@, not: false, inverted: false, property: None }), RuleV::Node(NodeV { debug_id: 8009, name: "set"@, property: Some("property"@), index: None })] }));
    }
    let r8 = Rule::Optional(Box::new(Optional { debug_id: 8006, rule: r7 }));
    proof {
        assert(r8@ == RuleV::Optional(OptionalV { debug_id: 8006, rule: Box::new(RuleV::Sequence(SequenceV { debug_id: 8007, args: seq![RuleV::Tag(TokenV { debug_id: 8008, text: ":"@, not: false, inverted: false, property: None }), RuleV::Node(NodeV { debug_id: 8009, name: "set"@, property: Some("property"@), index: None })] })) }));
    }
    let r9 = Rule::Sequence(Sequence { debug_id: 8001, args: rules_of3(r1, r4, r8) });
    proof {
        assert(r9@ == RuleV::Sequence(SequenceV { debug_id: 8001, args: seq![RuleV::Tag(TokenV { debug_id: 8002, text: ".t"@, not: false, inverted: false, property: None }), RuleV::Select(SelectV { debug_id: 8003, args: seq![RuleV::Tag(TokenV { debug_id: 8004, text: "?"@, not: false, inverted: false, property: Some("allow_empty"@) }), RuleV::Tag(TokenV { debug_id: 8005, text: "!"@, not: false, inverted: true, property: Some("allow_empty"@) })] }), RuleV::Optional(OptionalV { debug_id: 8006, rule: Box::new(RuleV::Sequence(SequenceV { debug_id: 8007, args: seq![RuleV::Tag(TokenV { debug_id: 8008, text: ":"@, not: false, inverted: false, property: None }), RuleV::Node(NodeV { debug_id: 8009, name: "set"@, property: Some("property"@), index: None })] })) })] }));
    }
    r9
}

/// Makes the rule `reference` of the meta language.
fn make_reference() -> (r: Rule)
    ensures
        r@ == reference_rule(),
{
    let r1 = Rule::Tag(Tag { debug_id: 9002, text: arc_text("_"), not: true, inverted: false, property: None });
    proof {
        assert(r1@ == RuleV::Tag(TokenV { debug_id: 9002, text: "_"@, not: true, inverted: false, property: None }));
    }
    let r2 = Rule::Tag(Tag { debug_id: 9003, text: arc_text("."), not: true, inverted: false, property: None });
    proof {
        assert(r2@ == RuleV::Tag(TokenV { debug_id: 9003, text: "."@, not: true, inverted: false, property: None }));
    }
    let r3 = Rule::UntilAnyOrWhitespace(UntilAnyOrWhitespace { debug_id: 9004, any_characters: arc_text("[]{}():.!?\""), optional: false, property: Some(arc_text("name")) });
    proof {
        assert(r3@ == RuleV::UntilAnyOrWhitespace(UntilAnyV { debug_id: 9004, any_characters: "[]{}():.!?\""@, optional: false, property: Some("name"@) }));
    }
    let r4 = Rule::Tag(Tag { debug_id: 9007, text: arc_text(":"), not: false, inverted: false, property: None });
    proof {
        assert(r4@ == RuleV::Tag(TokenV { debug_id: 9007, text: ":"@, not: false, inverted: false, property: None }));
    }
    let r5 = Rule::Node(Node { debug_id: 9008, name: arc_text("set"), property: Some(arc_text("property")), index: None });
    proof {
        assert(r5@ == RuleV::Node(NodeV { debug_id: 9008, name: "set"@, property: Some("property"@), index: None }));
    }
    let r6 = Rule::Sequence(Sequence { debug_id: 9006, args: rules_of2(r4, r5) });
    proof {
        assert(r6@ == RuleV::Sequence(SequenceV { debug_id: 9006, args: seq![RuleV::Tag(TokenV { debug_id: 9007, text: ":"@, not: false, inverted: false, property: None }), RuleV::Node(NodeV { debug_id: 9008, name: "set"@, property: Some("property"@), index: None })] }));
    }
    let r7 = Rule::Optional(Box::new(Optional { debug_id: 9005, rule: r6 }));
    proof {
        assert(r7@ == RuleV::Optional(OptionalV { debug_id: 9005, rule: Box::new(RuleV::Sequence(SequenceV { debug_id: 9006, args: seq![RuleV::Tag(TokenV { debug_id: 9007, text: ":"@, not: false, inverted: false, property: None }), RuleV::Node(NodeV { debug_id: 9008, name: "set"@, property: Some("property"@), index: None })] })) }));
    }
    let r8 = Rule::Sequence(Sequence { debug_id: 9001, args: rules_of4(r1, r2, r3, r7) });
    proof {
        assert(r8@ == RuleV::Sequence(SequenceV { debug_id: 9001, args: seq![RuleV::Tag(TokenV { debug_id: 9002, text: "_"@, not: true, inverted: false, property: None }), RuleV::Tag(TokenV { debug_id: 9003, text: "."@, not: true, inverted: false, property: None }), RuleV::UntilAnyOrWhitespace(UntilAnyV { debug_id: 9004, any_characters: "[]{}():.!?\""@, optional: false, property: Some("name"@) }), RuleV::Optional(OptionalV { debug_id: 9005, rule: Box::new(RuleV::Sequence(SequenceV { debug_id: 9006, args: seq![RuleV::Tag(TokenV { debug_id: 9007, text: ":"@, not: false, inverted: false, property: None }), RuleV::Node(NodeV { debug_id: 9008, name: "set"@, property: Some("property"@), index: None })] })) })] }));
    }
    r8
}

/// Makes the rule `sequence` of the meta language.
fn make_sequence() -> (r: Rule)
    ensures
        r@ == sequence_rule(),
{
    let r1 = Rule::Tag(Tag { debug_id: 10002, text: arc_text("["), not: false, inverted: false, property: None });
    proof {
        assert(r1@ == RuleV::Tag(TokenV { debug_id: 10002, text: "["@, not: false, inverted: false, property: None }));
    }
    let r2 = Rule::Whitespace(Whitespace { debug_id: 10003, optional: true });
    proof {
        assert(r2@ == RuleV::Whitespace(Whitespace { debug_id: 10003, optional: true }));
    }
    let r3 = Rule::Node(Node { debug_id: 10006, name: arc_text("rule"), property: Some(arc_text("rule")), index: None });
    proof {
        assert(r3@ == RuleV::Node(NodeV { debug_id: 10006, name: "rule"@, property: Some("rule"@), index: None }));
    }
    let r4 = Rule::Whitespace(Whitespace { debug_id: 10005, optional: false });
    proof {
        assert(r4@ == RuleV::Whitespace(Whitespace { debug_id: 10005, optional: false }));
    }
    let r5 = Rule::SeparateBy(Box::new(SeparateBy { debug_id: 10004, rule: r3, by: r4, optional: false, allow_trail: true }));
    proof {
        assert(r5@ == RuleV::SeparateBy(SeparateByV { debug_id: 10004, rule: Box::new(RuleV::Node(NodeV { debug_id: 10006, name: "rule"@, property: Some("rule"@), index: None })), by: Box::new(RuleV::Whitespace(Whitespace { debug_id: 10005, optional: false })), optional: false, allow_trail: true }));
    }
    let r6 = Rule::Tag(Tag { debug_id: 10007, text: arc_text("]"), not: false, inverted: false, property: None });
    proof {
        assert(r6@ == RuleV::Tag(TokenV { debug_id: 10007, text: "]"@, not: false, inverted: false, property: None }));
    }
    let r7 = Rule::Sequence(Sequence { debug_id: 10001, args: rules_of4(r1, r2, r5, r6) });
    proof {
        assert(r7@ == RuleV::Sequence(SequenceV { debug_id: 10001, args: seq![RuleV::Tag(TokenV { debug_id: 10002, text: "["@, not: false, inverted: false, property: None }), RuleV::Whitespace(Whitespace { debug_id: 10003, optional: true }), RuleV::SeparateBy(SeparateByV { debug_id: 10004, rule: Box::new(RuleV::Node(NodeV { debug_id: 10006, name: "rule"@, property: Some("rule"@), index: None })), by: Box::new(RuleV::Whitespace(Whitespace { debug_id: 10005, optional: false })), optional: false, allow_trail: true }), RuleV::Tag(TokenV { debug_id: 10007, text: "]"@, not: false, inverted: false, property: None })] }));
    }
    r7
}

/// Makes the rule `select` of the meta language.
fn make_select() -> (r: Rule)
    ensures
        r@ == select_rule(),
{
    let r1 = Rule::Tag(Tag { debug_id: 11002, text: arc_text("{"), not: false, inverted: false, property: None });
    proof {
        assert(r1@ == RuleV::Tag(TokenV { debug_id: 11002, text: "{"@, not: false, inverted: false, property: None }));
    }
    let r2 = Rule::Whitespace(Whitespace { debug_id: 11003, optional: true });
    proof {
        assert(r2@ == RuleV::Whitespace(Whitespace { debug_id: 11003, optional: true }));
    }
    let r3 = Rule::Node(Node { debug_id: 11006, name: arc_text("rule"), property: Some(arc_text("rule")), index: None });
    proof {
        assert(r3@ == RuleV::Node(NodeV { debug_id: 11006, name: "rule"@, property: Some("rule"@), index: None }));
    }
    let r4 = Rule::Whitespace(Whitespace { debug_id: 11005, optional: false });
    proof {
        assert(r4@ == RuleV::Whitespace(Whitespace { debug_id: 11005, optional: false }));
    }
    let r5 = Rule::SeparateBy(Box::new(SeparateBy { debug_id: 11004, rule: r3, by: r4, optional: false, allow_trail: true }));
    proof {
        assert(r5@ == RuleV::SeparateBy(SeparateByV { debug_id: 11004, rule: Box::new(RuleV::Node(NodeV { debug_id: 11006, name: "rule"@, property: Some("rule"@), index: None })), by: Box::new(RuleV::Whitespace(Whitespace { debug_id: 11005, optional: false })), optional: false, allow_trail: true }));
    }
    let r6 = Rule::Tag(Tag { debug_id: 11007, text: arc_text("}"), not: false, inverted: false, property: None });
    proof {
        assert(r6@ == RuleV::Tag(TokenV { debug_id: 11007, text: "}"@, not: false, inverted: false, property: None }));
    }
    let r7 = Rule::Sequence(Sequence { debug_id: 11001, args: rules_of4(r1, r2, r5, r6) });
    proof {
        assert(r7@ == RuleV::Sequence(SequenceV { debug_id: 11001, args: seq![RuleV::Tag(TokenV { debug_id: 11002, text: "{"@, not: false, inverted: false, property: None }), RuleV::Whitespace(Whitespace { debug_id: 11003, optional: true }), RuleV::SeparateBy(SeparateByV { debug_id: 11004, rule: Box::new(RuleV::Node(NodeV { debug_id: 11006, name: "rule"@, property: Some("rule"@), index: None })), by: Box::new(RuleV::Whitespace(Whitespace { debug_id: 11005, optional: false })), optional: false, allow_trail: true }), RuleV::Tag(TokenV { debug_id: 11007, text: "}"@, not: false, inverted: false, property: None })] }));
    }
    r7
}

/// Makes the rule `separated_by` of the meta language.
fn make_separated_by() -> (r: Rule)
    ensures
        r@ == separated_by_rule(),
{
    let r1 = Rule::Tag(Tag { debug_id: 12002, text: arc_text(".s"), not: false, inverted: false, property: None });
    proof {
        assert(r1@ == RuleV::Tag(TokenV { debug_id: 12002, text: ".s"@, not: false, inverted: false, property: None }));
    }
    let r2 = Rule::Node(Node { debug_id: 12003, name: arc_text("opt"), property: None, index: None });
    proof {
        assert(r2@ == RuleV::Node(NodeV { debug_id: 12003, name: "opt"@, property: None, index: None }));
    }
    let r3 = Rule::Tag(Tag { debug_id: 12005, text: arc_text("."), not: false, inverted: false, property: Some(arc_text("allow_trail")) });
    proof {
        assert(r3@ == RuleV::Tag(TokenV { debug_id: 12005, text: "."@, not: false, inverted: false, property: Some("allow_trail"@) }));
    }
    let r4 = Rule::Optional(Box::new(Optional { debug_id: 12004, rule: r3 }));
    proof {
        assert(r4@ == RuleV::Optional(OptionalV { debug_id: 12004, rule: Box::new(RuleV::Tag(TokenV { debug_id: 12005, text: "."@, not: false, inverted: false, property: Some("allow_trail"@) })) }));
    }
    let r5 = Rule::Tag(Tag { debug_id: 12006, text: arc_text("("), not: false, inverted: false, property: None });
    proof {
        assert(r5@ == RuleV::Tag(TokenV { debug_id: 12006, text: "("@, not: false, inverted: false, property: None }));
    }
    let r6 = Rule::Whitespace(Whitespace { debug_id: 12007, optional: true });
    proof {
        assert(r6@ == RuleV::Whitespace(Whitespace { debug_id: 12007, optional: true }));
    }
    let r7 = Rule::Node(Node { debug_id: 12008, name: arc_text("rule"), property: Some(arc_text("by")), index: None });
    proof {
        assert(r7@ == RuleV::Node(NodeV { debug_id: 12008, name: "rule"@, property: Some("by"@), index: None }));
    }
    let r8 = Rule::Whitespace(Whitespace { debug_id: 12009, optional: false });
    proof {
        assert(r8@ == RuleV::Whitespace(Whitespace { debug_id: 12009, optional: false }));
    }
    let r9 = Rule::Node(Node { debug_id: 12010, name: arc_text("rule"), property: Some(arc_text("rule")), index: None });
    proof {
        assert(r9@ == RuleV::Node(NodeV { debug_id: 12010, name: "rule"@, property: Some("rule"@), index: None }));
    }
    let r10 = Rule::Whitespace(Whitespace { debug_id: 12011, optional: true });
    proof {
        assert(r10@ == RuleV::Whitespace(Whitespace { debug_id: 12011, optional: true }));
    }
    let r11 = Rule::Tag(Tag { debug_id: 12012, text: arc_text(")"), not: false, inverted: false, property: None });
    proof {
        assert(r11@ == RuleV::Tag(TokenV { debug_id: 12012, text: ")"@, not: false, inverted: false, property: None }));
    }
    let r12 = Rule::Sequence(Sequence { debug_id: 12001, args: rules_of10(r1, r2, r4, r5, r6, r7, r8, r9, r10, r11) });
    proof {
        assert(r12@ == RuleV::Sequence(SequenceV { debug_id: 12001, args: seq![RuleV::Tag(TokenV { debug_id: 12002, text: ".s"@, not: false, inverted: false, property: None }), RuleV::Node(NodeV { debug_id: 12003, name: "opt"@, property: None, index: None }), RuleV::Optional(OptionalV { debug_id: 12004, rule: Box::new(RuleV::Tag(TokenV { debug_id: 12005, text: "."@, not: false, inverted: false, property: Some("allow_trail"@) })) }), RuleV::Tag(TokenV { debug_id: 12006, text: "("@, not: false, inverted: false, property: None }), RuleV::Whitespace(Whitespace { debug_id: 12007, optional: true }), RuleV::Node(NodeV { debug_id: 12008, name: "rule"@, property: Some("by"@), index: None }), RuleV::Whitespace(Whitespace { debug_id: 12009, optional: false }), RuleV::Node(NodeV { debug_id: 12010, name: "rule"@, property: Some("rule"@), index: None }), RuleV::Whitespace(Whitespace { debug_id: 12011, optional: true }), RuleV::Tag(TokenV { debug_id: 12012, text: ")"@, not: false, inverted: false, property: None })] }));
    }
    r12
}

/// Makes the rule `tag` of the meta language.
fn make_tag() -> (r: Rule)
    ensures
        r@ == tag_rule(),
{
    let r1 = Rule::Tag(Tag { debug_id: 13003, text: arc_text("!"), not: false, inverted: false, property: Some(arc_text("not")) });
    proof {
        assert(r1@ == RuleV::Tag(TokenV { debug_id: 13003, text: "!"@, not: false, inverted: false, property: Some("not"@) }));
    }
    let r2 = Rule::Optional(Box::new(Optional { debug_id: 13002, rule: r1 }));
    proof {
        assert(r2@ == RuleV::Optional(OptionalV { debug_id: 13002, rule: Box::new(RuleV::Tag(TokenV { debug_id: 13003, text: "!"@, not: false, inverted: false, property: Some("not"@) })) }));
    }
    let r3 = Rule::Node(Node { debug_id: 13004, name: arc_text("set"), property: Some(arc_text("text")), index: None });
    proof {
        assert(r3@ == RuleV::Node(NodeV { debug_id: 13004, name: "set"@, property: Some("text"@), index: None }));
    }
    let r4 = Rule::Tag(Tag { debug_id: 13007, text: arc_text(":"), not: false, inverted: false, property: None });
    proof {
        assert(r4@ == RuleV::Tag(TokenV { debug_id: 13007, text: ":"@, not: false, inverted: false, property: None }));
    }
    let r5 = Rule::Tag(Tag { debug_id: 13009, text: arc_text("!"), not: false, inverted: false, property: Some(arc_text("inverted")) });
    proof {
        assert(r5@ == RuleV::Tag(TokenV { debug_id: 13009, text: "!"@, not: false, inverted: false, property: Some("inverted"@) }));
    }
    let r6 = Rule::Optional(Box::new(Optional { debug_id: 13008, rule: r5 }));
    proof {
        assert(r6@ == RuleV::Optional(OptionalV { debug_id: 13008, rule: Box::new(RuleV::Tag(TokenV { debug_id: 13009, text: "!"@, not: false, inverted: false, property: Some("inverted"@) })) }));
    }
    let r7 = Rule::Node(Node { debug_id: 13010, name: arc_text("set"), property: Some(arc_text("property")), index: None });
    proof {
        assert(r7@ == RuleV::Node(NodeV { debug_id: 13010, name: "set"@, property: Some("property"@), index: None }));
    }
    let r8 = Rule::Sequence(Sequence { debug_id: 13006, args: rules_of3(r4, r6, r7) });
    proof {
        assert(r8@ == RuleV::Sequence(SequenceV { debug_id: 13006, args: seq![RuleV::Tag(TokenV { debug_id: 13007, text: ":"@, not: false, inverted: false, property: None }), RuleV::Optional(OptionalV { debug_id: 13008, rule: Box::new(RuleV::Tag(TokenV { debug_id: 13009, text: "!"@, not: false, inverted: false, property: Some("inverted"@) })) }), RuleV::Node(NodeV { debug_id: 13010, name: "set"@, property: Some("property"@), index: None })] }));
    }
    let r9 = Rule::Optional(Box::new(Optional { debug_id: 13005, rule: r8 }));
    proof {
        assert(r9@ == RuleV::Optional(OptionalV { debug_id: 13005, rule: Box::new(RuleV::Sequence(SequenceV { debug_id: 13006, args: seq![RuleV::Tag(TokenV { debug_id: 13007, text: ":"@, not: false, inverted: false, property: None }), RuleV::Optional(OptionalV { debug_id: 13008, rule: Box::new(RuleV::Tag(TokenV { debug_id: 13009, text: "!"@, not: false, inverted: false, property: Some("inverted"@) })) }), RuleV::Node(NodeV { debug_id: 13010, name: "set"@, property: Some("property"@), index: None })] })) }));
    }
    let r10 = Rule::Sequence(Sequence { debug_id: 13001, args: rules_of3(r2, r3, r9) });
    proof {
        assert(r10@ == RuleV::Sequence(SequenceV { debug_id: 13001, args: seq![RuleV::Optional(OptionalV { debug_id: 13002, rule: Box::new(RuleV::Tag(TokenV { debug_id: 13003, text: "!"@, not: false, inverted: false, property: Some("not"@) })) }), RuleV::Node(NodeV { debug_id: 13004, name: "set"@, property: Some("text"@), index: None }), RuleV::Optional(OptionalV { debug_id: 13005, rule: Box::new(RuleV::Sequence(SequenceV { debug_id: 13006, args: seq![RuleV::Tag(TokenV { debug_id: 13007, text: ":"@, not: false, inverted: false, property: None }), RuleV::Optional(OptionalV { debug_id: 13008, rule: Box::new(RuleV::Tag(TokenV { debug_id: 13009, text: "!"@, not: false, inverted: false, property: Some("inverted"@) })) }), RuleV::Node(NodeV { debug_id: 13010, name: "set"@, property: Some("property"@), index: None })] })) })] }));
    }
    r10
}

/// Makes the rule `optional` of the meta language.
fn make_optional() -> (r: Rule)
    ensures
        r@ == optional_rule(),
{
    let r1 = Rule::Tag(Tag { debug_id: 14002, text: arc_text("?"), not: false, inverted: false, property: None });
    proof {
        assert(r1@ == RuleV::Tag(TokenV { debug_id: 14002, text: "?"@, not: false, inverted: false, property: None }));
    }
    let r2 = Rule::Node(Node { debug_id: 14003, name: arc_text("rule"), property: Some(arc_text("rule")), index: None });
    proof {
        assert(r2@ == RuleV::Node(NodeV { debug_id: 14003, name: "rule"@, property: Some("rule"@), index: None }));
    }
    let r3 = Rule::Sequence(Sequence { debug_id: 14001, args: rules_of2(r1, r2) });
    proof {
        assert(r3@ == RuleV::Sequence(SequenceV { debug_id: 14001, args: seq![RuleV::Tag(TokenV { debug_id: 14002, text: "?"@, not: false, inverted: false, property: None }), RuleV::Node(NodeV { debug_id: 14003, name: "rule"@, property: Some("rule"@), index: None })] }));
    }
    r3
}

/// Makes the rule `not` of the meta language.
fn make_not() -> (r: Rule)
    ensures
        r@ == not_rule(),
{
    let r1 = Rule::Tag(Tag { debug_id: 15002, text: arc_text("!"), not: false, inverted: false, property: None });
    proof {
        assert(r1@ == RuleV::Tag(TokenV { debug_id: 15002, text: "!"@, not: false, inverted: false, property: None }));
    }
    let r2 = Rule::Node(Node { debug_id: 15003, name: arc_text("rule"), property: Some(arc_text("rule")), index: None });
    proof {
        assert(r2@ == RuleV::Node(NodeV { debug_id: 15003, name: "rule"@, property: Some("rule"@), index: None }));
    }
    let r3 = Rule::Sequence(Sequence { debug_id: 15001, args: rules_of2(r1, r2) });
    proof {
        assert(r3@ == RuleV::Sequence(SequenceV { debug_id: 15001, args: seq![RuleV::Tag(TokenV { debug_id: 15002, text: "!"@, not: false, inverted: false, property: None }), RuleV::Node(NodeV { debug_id: 15003, name: "rule"@, property: Some("rule"@), index: None })] }));
    }
    r3
}

/// Makes the rule `whitespace` of the meta language.
fn make_whitespace() -> (r: Rule)
    ensures
        r@ == whitespace_rule(),
{
    let r1 = Rule::Tag(Tag { debug_id: 16003, text: arc_text(".w"), not: false, inverted: false, property: None });
    proof {
        assert(r1@ == RuleV::Tag(TokenV { debug_id: 16003, text: ".w"@, not: false, inverted: false, property: None }));
    }
    let r2 = Rule::Node(Node { debug_id: 16004, name: arc_text("opt"), property: None, index: None });
    proof {
        assert(r2@ == RuleV::Node(NodeV { debug_id: 16004, name: "opt"@, property: None, index: None }));
    }
    let r3 = Rule::Sequence(Sequence { debug_id: 16002, args: rules_of2(r1, r2) });
    proof {
        assert(r3@ == RuleV::Sequence(SequenceV { debug_id: 16002, args: seq![RuleV::Tag(TokenV { debug_id: 16003, text: ".w"@, not: false, inverted: false, property: None }), RuleV::Node(NodeV { debug_id: 16004, name: "opt"@, property: None, index: None })] }));
    }
    r3
}

/// Makes the rule `until_any_or_whitespace` of the meta language.
fn make_until_any_or_whitespace() -> (r: Rule)
    ensures
        r@ == until_any_or_whitespace_rule(),
{
    let r1 = Rule::Tag(Tag { debug_id: 17002, text: arc_text(".."), not: false, inverted: false, property: None });
    proof {
        assert(r1@ == RuleV::Tag(TokenV { debug_id: 17002, text: ".."@, not: false, inverted: false, property: None }));
    }
    let r2 = Rule::Node(Node { debug_id: 17003, name: arc_text("set_opt"), property: Some(arc_text("any_characters")), index: None });
    proof {
        assert(r2@ == RuleV::Node(NodeV { debug_id: 17003, name: "set_opt"@, property: Some("any_characters"@), index: None }));
    }
    let r3 = Rule::Node(Node { debug_id: 17004, name: arc_text("opt"), property: None, index: None });
    proof {
        assert(r3@ == RuleV::Node(NodeV { debug_id: 17004, name: "opt"@, property: None, index: None }));
    }
    let r4 = Rule::Tag(Tag { debug_id: 17007, text: arc_text(":"), not: false, inverted: false, property: None });
    proof {
        assert(r4@ == RuleV::Tag(TokenV { debug_id: 17007, text: ":"@, not: false, inverted: false, property: None }));
    }
    let r5 = Rule::Node(Node { debug_id: 17008, name: arc_text("set"), property: Some(arc_text("property")), index: None });
    proof {
        assert(r5@ == RuleV::Node(NodeV { debug_id: 17008, name: "set"@, property: Some("property"@), index: None }));
    }
    let r6 = Rule::Sequence(Sequence { debug_id: 17006, args: rules_of2(r4, r5) });
    proof {
        assert(r6@ == RuleV::Sequence(SequenceV { debug_id: 17006, args: seq![RuleV::Tag(TokenV { debug_id: 17007, text: ":"@, not: false, inverted: false, property: None }), RuleV::Node(NodeV { debug_id: 17008, name: "set"@, property: Some("property"@), index: None })] }));
    }
    let r7 = Rule::Optional(Box::new(Optional { debug_id: 17005, rule: r6 }));
    proof {
        assert(r7@ == RuleV::Optional(OptionalV { debug_id: 17005, rule: Box::new(RuleV::Sequence(SequenceV { debug_id: 17006, args: seq![RuleV::Tag(TokenV { debug_id: 17007, text: ":"@, not: false, inverted: false, property: None }), RuleV::Node(NodeV { debug_id: 17008, name: "set"@, property: Some("property"@), index: None })] })) }));
    }
    let r8 = Rule::Sequence(Sequence { debug_id: 17001, args: rules_of4(r1, r2, r3, r7) });
    proof {
        assert(r8@ == RuleV::Sequence(SequenceV { debug_id: 17001, args: seq![RuleV::Tag(TokenV { debug_id: 17002, text: ".."@, not: false, inverted: false, property: None }), RuleV::Node(NodeV { debug_id: 17003, name: "set_opt"@, property: Some("any_characters"@), index: None }), RuleV::Node(NodeV { debug_id: 17004, name: "opt"@, property: None, index: None }), RuleV::Optional(OptionalV { debug_id: 17005, rule: Box::new(RuleV::Sequence(SequenceV { debug_id: 17006, args: seq![RuleV::Tag(TokenV { debug_id: 17007, text: ":"@, not: false, inverted: false, property: None }), RuleV::Node(NodeV { debug_id: 17008, name: "set"@, property: Some("property"@), index: None })] })) })] }));
    }
    r8
}

/// Makes the rule `until_any` of the meta language.
fn make_until_any() -> (r: Rule)
    ensures
        r@ == until_any_rule(),
{
    let r1 = Rule::Tag(Tag { debug_id: 18002, text: arc_text("..."), not: false, inverted: false, property: None });
    proof {
        assert(r1@ == RuleV::Tag(TokenV { debug_id: 18002, text: "..."@, not: false, inverted: false, property: None }));
    }
    let r2 = Rule::Node(Node { debug_id: 18003, name: arc_text("set_opt"), property: Some(arc_text("any_characters")), index: None });
    proof {
        assert(r2@ == RuleV::Node(NodeV { debug_id: 18003, name: "set_opt"@, property: Some("any_characters"@), index: None }));
    }
    let r3 = Rule::Node(Node { debug_id: 18004, name: arc_text("opt"), property: None, index: None });
    proof {
        assert(r3@ == RuleV::Node(NodeV { debug_id: 18004, name: "opt"@, property: None, index: None }));
    }
    let r4 = Rule::Tag(Tag { debug_id: 18007, text: arc_text(":"), not: false, inverted: false, property: None });
    proof {
        assert(r4@ == RuleV::Tag(TokenV { debug_id: 18007, text: ":"@, not: false, inverted: false, property: None }));
    }
    let r5 = Rule::Node(Node { debug_id: 18008, name: arc_text("set"), property: Some(arc_text("property")), index: None });
    proof {
        assert(r5@ == RuleV::Node(NodeV { debug_id: 18008, name: "set"@, property: Some("property"@), index: None }));
    }
    let r6 = Rule::Sequence(Sequence { debug_id: 18006, args: rules_of2(r4, r5) });
    proof {
        assert(r6@ == RuleV::Sequence(SequenceV { debug_id: 18006, args: seq![RuleV::Tag(TokenV { debug_id: 18007, text: ":"@, not: false, inverted: false, property: None }), RuleV::Node(NodeV { debug_id: 18008, name: "set"@, property: Some("property"@), index: None })] }));
    }
    let r7 = Rule::Optional(Box::new(Optional { debug_id: 18005, rule: r6 }));
    proof {
        assert(r7@ == RuleV::Optional(OptionalV { debug_id: 18005, rule: Box::new(RuleV::Sequence(SequenceV { debug_id: 18006, args: seq![RuleV::Tag(TokenV { debug_id: 18007, text: ":"@, not: false, inverted: false, property: None }), RuleV::Node(NodeV { debug_id: 18008, name: "set"@, property: Some("property"@), index: None })] })) }));
    }
    let r8 = Rule::Sequence(Sequence { debug_id: 18001, args: rules_of4(r1, r2, r3, r7) });
    proof {
        assert(r8@ == RuleV::Sequence(SequenceV { debug_id: 18001, args: seq![RuleV::Tag(TokenV { debug_id: 18002, text: "..."@, not: false, inverted: false, property: None }), RuleV::Node(NodeV { debug_id: 18003, name: "set_opt"@, property: Some("any_characters"@), index: None }), RuleV::Node(NodeV { debug_id: 18004, name: "opt"@, property: None, index: None }), RuleV::Optional(OptionalV { debug_id: 18005, rule: Box::new(RuleV::Sequence(SequenceV { debug_id: 18006, args: seq![RuleV::Tag(TokenV { debug_id: 18007, text: ":"@, not: false, inverted: false, property: None }), RuleV::Node(NodeV { debug_id: 18008, name: "set"@, property: Some("property"@), index: None })] })) })] }));
    }
    r8
}

/// Makes the rule `repeat` of the meta language.
fn make_repeat() -> (r: Rule)
    ensures
        r@ == repeat_rule(),
{
    let r1 = Rule::Tag(Tag { debug_id: 19002, text: arc_text(".r"), not: false, inverted: false, property: None });
    proof {
        assert(r1@ == RuleV::Tag(TokenV { debug_id: 19002, text: ".r"@, not: false, inverted: false, property: None }));
    }
    let r2 = Rule::Node(Node { debug_id: 19003, name: arc_text("opt"), property: None, index: None });
    proof {
        assert(r2@ == RuleV::Node(NodeV { debug_id: 19003, name: "opt"@, property: None, index: None }));
    }
    let r3 = Rule::Tag(Tag { debug_id: 19004, text: arc_text("("), not: false, inverted: false, property: None });
    proof {
        assert(r3@ == RuleV::Tag(TokenV { debug_id: 19004, text: "("@, not: false, inverted: false, property: None }));
    }
    let r4 = Rule::Node(Node { debug_id: 19005, name: arc_text("rule"), property: Some(arc_text("rule")), index: None });
    proof {
        assert(r4@ == RuleV::Node(NodeV { debug_id: 19005, name: "rule"@, property: Some("rule"@), index: None }));
    }
    let r5 = Rule::Tag(Tag { debug_id: 19006, text: arc_text(")"), not: false, inverted: false, property: None });
    proof {
        assert(r5@ == RuleV::Tag(TokenV { debug_id: 19006, text: ")"@, not: false, inverted: false, property: None }));
    }
    let r6 = Rule::Sequence(Sequence { debug_id: 19001, args: rules_of5(r1, r2, r3, r4, r5) });
    proof {
        assert(r6@ == RuleV::Sequence(SequenceV { debug_id: 19001, args: seq![RuleV::Tag(TokenV { debug_id: 19002, text: ".r"@, not: false, inverted: false, property: None }), RuleV::Node(NodeV { debug_id: 19003, name: "opt"@, property: None, index: None }), RuleV::Tag(TokenV { debug_id: 19004, text: "("@, not: false, inverted: false, property: None }), RuleV::Node(NodeV { debug_id: 19005, name: "rule"@, property: Some("rule"@), index: None }), RuleV::Tag(TokenV { debug_id: 19006, text: ")"@, not: false, inverted: false, property: None })] }));
    }
    r6
}

/// Makes the rule `lines` of the meta language.
fn make_lines() -> (r: Rule)
    ensures
        r@ == lines_rule(),
{
    let r1 = Rule::Tag(Tag { debug_id: 20002, text: arc_text(".l("), not: false, inverted: false, property: None });
    proof {
        assert(r1@ == RuleV::Tag(TokenV { debug_id: 20002, text: ".l("@, not: false, inverted: false, property: None }));
    }
    let r2 = Rule::Whitespace(Whitespace { debug_id: 20003, optional: true });
    proof {
        assert(r2@ == RuleV::Whitespace(Whitespace { debug_id: 20003, optional: true }));
    }
    let r3 = Rule::Node(Node { debug_id: 20004, name: arc_text("rule"), property: Some(arc_text("rule")), index: None });
    proof {
        assert(r3@ == RuleV::Node(NodeV { debug_id: 20004, name: "rule"@, property: Some("rule"@), index: None }));
    }
    let r4 = Rule::Whitespace(Whitespace { debug_id: 20005, optional: true });
    proof {
        assert(r4@ == RuleV::Whitespace(Whitespace { debug_id: 20005, optional: true }));
    }
    let r5 = Rule::Tag(Tag { debug_id: 20006, text: arc_text(")"), not: false, inverted: false, property: None });
    proof {
        assert(r5@ == RuleV::Tag(TokenV { debug_id: 20006, text: ")"@, not: false, inverted: false, property: None }));
    }
    let r6 = Rule::Sequence(Sequence { debug_id: 20001, args: rules_of5(r1, r2, r3, r4, r5) });
    proof {
        assert(r6@ == RuleV::Sequence(SequenceV { debug_id: 20001, args: seq![RuleV::Tag(TokenV { debug_id: 20002, text: ".l("@, not: false, inverted: false, property: None }), RuleV::Whitespace(Whitespace { debug_id: 20003, optional: true }), RuleV::Node(NodeV { debug_id: 20004, name: "rule"@, property: Some("rule"@), index: None }), RuleV::Whitespace(Whitespace { debug_id: 20005, optional: true }), RuleV::Tag(TokenV { debug_id: 20006, text: ")"@, not: false, inverted: false, property: None })] }));
    }
    r6
}

/// Makes the rule `rule` of the meta language.
fn make_rule() -> (r: Rule)
    ensures
        r@ == rule_rule(),
{
    let r1 = Rule::Node(Node { debug_id: 21002, name: arc_text("whitespace"), property: Some(arc_text("whitespace")), index: None });
    proof {
        assert(r1@ == RuleV::Node(NodeV { debug_id: 21002, name: "whitespace"@, property: Some("whitespace"@), index: None }));
    }
    let r2 = Rule::Node(Node { debug_id: 21003, name: arc_text("until_any_or_whitespace"), property: Some(arc_text("until_any_or_whitespace")), index: None });
    proof {
        assert(r2@ == RuleV::Node(NodeV { debug_id: 21003, name: "until_any_or_whitespace"@, property: Some("until_any_or_whitespace"@), index: None }));
    }
    let r3 = Rule::Node(Node { debug_id: 21004, name: arc_text("until_any"), property: Some(arc_text("until_any")), index: None });
    proof {
        assert(r3@ == RuleV::Node(NodeV { debug_id: 21004, name: "until_any"@, property: Some("until_any"@), index: None }));
    }
    let r4 = Rule::Node(Node { debug_id: 21005, name: arc_text("lines"), property: Some(arc_text("lines")), index: None });
    proof {
        assert(r4@ == RuleV::Node(NodeV { debug_id: 21005, name: "lines"@, property: Some("lines"@), index: None }));
    }
    let r5 = Rule::Node(Node { debug_id: 21006, name: arc_text("repeat"), property: Some(arc_text("repeat")), index: None });
    proof {
        assert(r5@ == RuleV::Node(NodeV { debug_id: 21006, name: "repeat"@, property: Some("repeat"@), index: None }));
    }
    let r6 = Rule::Node(Node { debug_id: 21007, name: arc_text("number"), property: Some(arc_text("number")), index: None });
    proof {
        assert(r6@ == RuleV::Node(NodeV { debug_id: 21007, name: "number"@, property: Some("number"@), index: None }));
    }
    let r7 = Rule::Node(Node { debug_id: 21008, name: arc_text("text"), property: Some(arc_text("text")), index: None });
    proof {
        assert(r7@ == RuleV::Node(NodeV { debug_id: 21008, name: "text"@, property: Some("text"@), index: None }));
    }
    let r8 = Rule::Node(Node { debug_id: 21009, name: arc_text("reference"), property: Some(arc_text("reference")), index: None });
    proof {
        assert(r8@ == RuleV::Node(NodeV { debug_id: 21009, name: "reference"@, property: Some("reference"@), index: None }));
    }
    let r9 = Rule::Node(Node { debug_id: 21010, name: arc_text("sequence"), property: Some(arc_text("sequence")), index: None });
    proof {
        assert(r9@ == RuleV::Node(NodeV { debug_id: 21010, name: "sequence"@, property: Some("sequence"@), index: None }));
    }
    let r10 = Rule::Node(Node { debug_id: 21011, name: arc_text("select"), property: Some(arc_text("select")), index: None });
    proof {
        assert(r10@ == RuleV::Node(NodeV { debug_id: 21011, name: "select"@, property: Some("select"@), index: None }));
    }
    let r11 = Rule::Node(Node { debug_id: 21012, name: arc_text("separated_by"), property: Some(arc_text("separated_by")), index: None });
    proof {
        assert(r11@ == RuleV::Node(NodeV { debug_id: 21012, name: "separated_by"@, property: Some("separated_by"@), index: None }));
    }
    let r12 = Rule::Node(Node { debug_id: 21013, name: arc_text("tag"), property: Some(arc_text("tag")), index: None });
    proof {
        assert(r12@ == RuleV::Node(NodeV { debug_id: 21013, name: "tag"@, property: Some("tag"@), index: None }));
    }
    let r13 = Rule::Node(Node { debug_id: 21013, name: arc_text("optional"), property: Some(arc_text("optional")), index: None });
    proof {
        assert(r13@ == RuleV::Node(NodeV { debug_id: 21013, name: "optional"@, property: Some("optional"@), index: None }));
    }
    let r14 = Rule::Node(Node { debug_id: 21014, name: arc_text("not"), property: Some(arc_text("not")), index: None });
    proof {
        assert(r14@ == RuleV::Node(NodeV { debug_id: 21014, name: "not"@, property: Some("not"@), index: None }));
    }
    let r15 = Rule::Select(Select { debug_id: 21001, args: rules_of14(r1, r2, r3, r4, r5, r6, r7, r8, r9, r10, r11, r12, r13, r14) });
    proof {
        assert(r15@ == RuleV::Select(SelectV { debug_id: 21001, args: seq![RuleV::Node(NodeV { debug_id: 21002, name: "whitespace"@, property: Some("whitespace"@), index: None }), RuleV::Node(NodeV { debug_id: 21003, name: "until_any_or_whitespace"@, property: Some("until_any_or_whitespace"@), index: None }), RuleV::Node(NodeV { debug_id: 21004, name: "until_any"@, property: Some("until_any"@), index: None }), RuleV::Node(NodeV { debug_id: 21005, name: "lines"@, property: Some("lines"@), index: None }), RuleV::Node(NodeV { debug_id: 21006, name: "repeat"@, property: Some("repeat"@), index: None }), RuleV::Node(NodeV { debug_id: 21007, name: "number"@, property: Some("number"@), index: None }), RuleV::Node(NodeV { debug_id: 21008, name: "text"@, property: Some("text"@), index: None }), RuleV::Node(NodeV { debug_id: 21009, name: "reference"@, property: Some("reference"@), index: None }), RuleV::Node(NodeV { debug_id: 21010, name: "sequence"@, property: Some("sequence"@), index: None }), RuleV::Node(NodeV { debug_id: 21011, name: "select"@, property: Some("select"@), index: None }), RuleV::Node(NodeV { debug_id: 21012, name: "separated_by"@, property: Some("separated_by"@), index: None }), RuleV::Node(NodeV { debug_id: 21013, name: "tag"@, property: Some("tag"@), index: None }), RuleV::Node(NodeV { debug_id: 21013, name: "optional"@, property: Some("optional"@), index: None }), RuleV::Node(NodeV { debug_id: 21014, name: "not"@, property: Some("not"@), index: None })] }));
    }
    r15
}

/// Makes the rule `document` of the meta language.
fn make_document() -> (r: Rule)
    ensures
        r@ == document_rule(),
{
    let r1 = Rule::Whitespace(Whitespace { debug_id: 22004, optional: true });
    proof {
        assert(r1@ == RuleV::Whitespace(Whitespace { debug_id: 22004, optional: true }));
    }
    let r2 = Rule::Node(Node { debug_id: 22006, name: arc_text("string"), property: Some(arc_text("string")), index: None });
    proof {
        assert(r2@ == RuleV::Node(NodeV { debug_id: 22006, name: "string"@, property: Some("string"@), index: None }));
    }
    let r3 = Rule::Node(Node { debug_id: 22007, name: arc_text("comment"), property: None, index: None });
    proof {
        assert(r3@ == RuleV::Node(NodeV { debug_id: 22007, name: "comment"@, property: None, index: None }));
    }
    let r4 = Rule::Select(Select { debug_id: 22005, args: rules_of2(r2, r3) });
    proof {
        assert(r4@ == RuleV::Select(SelectV { debug_id: 22005, args: seq![RuleV::Node(NodeV { debug_id: 22006, name: "string"@, property: Some("string"@), index: None }), RuleV::Node(NodeV { debug_id: 22007, name: "comment"@, property: None, index: None })] }));
    }
    let r5 = Rule::Sequence(Sequence { debug_id: 22003, args: rules_of2(r1, r4) });
    proof {
        assert(r5@ == RuleV::Sequence(SequenceV { debug_id: 22003, args: seq![RuleV::Whitespace(Whitespace { debug_id: 22004, optional: true }), RuleV::Select(SelectV { debug_id: 22005, args: seq![RuleV::Node(NodeV { debug_id: 22006, name: "string"@, property: Some("string"@), index: None }), RuleV::Node(NodeV { debug_id: 22007, name: "comment"@, property: None, index: None })] })] }));
    }
    let r6 = Rule::Lines(Box::new(Lines { debug_id: 22002, rule: r5, indent: false }));
    proof {
        assert(r6@ == RuleV::Lines(LinesV { debug_id: 22002, rule: Box::new(RuleV::Sequence(SequenceV { debug_id: 22003, args: seq![RuleV::Whitespace(Whitespace { debug_id: 22004, optional: true }), RuleV::Select(SelectV { debug_id: 22005, args: seq![RuleV::Node(NodeV { debug_id: 22006, name: "string"@, property: Some("string"@), index: None }), RuleV::Node(NodeV { debug_id: 22007, name: "comment"@, property: None, index: None })] })] })), indent: false }));
    }
    let r7 = Rule::Whitespace(Whitespace { debug_id: 22010, optional: true });
    proof {
        assert(r7@ == RuleV::Whitespace(Whitespace { debug_id: 22010, optional: true }));
    }
    let r8 = Rule::Node(Node { debug_id: 22012, name: arc_text("node"), property: Some(arc_text("node")), index: None });
    proof {
        assert(r8@ == RuleV::Node(NodeV { debug_id: 22012, name: "node"@, property: Some("node"@), index: None }));
    }
    let r9 = Rule::Node(Node { debug_id: 22013, name: arc_text("comment"), property: None, index: None });
    proof {
        assert(r9@ == RuleV::Node(NodeV { debug_id: 22013, name: "comment"@, property: None, index: None }));
    }
    let r10 = Rule::Select(Select { debug_id: 22011, args: rules_of2(r8, r9) });
    proof {
        assert(r10@ == RuleV::Select(SelectV { debug_id: 22011, args: seq![RuleV::Node(NodeV { debug_id: 22012, name: "node"@, property: Some("node"@), index: None }), RuleV::Node(NodeV { debug_id: 22013, name: "comment"@, property: None, index: None })] }));
    }
    let r11 = Rule::Sequence(Sequence { debug_id: 22009, args: rules_of2(r7, r10) });
    proof {
        assert(r11@ == RuleV::Sequence(SequenceV { debug_id: 22009, args: seq![RuleV::Whitespace(Whitespace { debug_id: 22010, optional: true }), RuleV::Select(SelectV { debug_id: 22011, args: seq![RuleV::Node(NodeV { debug_id: 22012, name: "node"@, property: Some("node"@), index: None }), RuleV::Node(NodeV { debug_id: 22013, name: "comment"@, property: None, index: None })] })] }));
    }
    let r12 = Rule::Lines(Box::new(Lines { debug_id: 22008, rule: r11, indent: false }));
    proof {
        assert(r12@ == RuleV::Lines(LinesV { debug_id: 22008, rule: Box::new(RuleV::Sequence(SequenceV { debug_id: 22009, args: seq![RuleV::Whitespace(Whitespace { debug_id: 22010, optional: true }), RuleV::Select(SelectV { debug_id: 22011, args: seq![RuleV::Node(NodeV { debug_id: 22012, name: "node"@, property: Some("node"@), index: None }), RuleV::Node(NodeV { debug_id: 22013, name: "comment"@, property: None, index: None })] })] })), indent: false }));
    }
    let r13 = Rule::Whitespace(Whitespace { debug_id: 22014, optional: true });
    proof {
        assert(r13@ == RuleV::Whitespace(Whitespace { debug_id: 22014, optional: true }));
    }
    let r14 = Rule::Sequence(Sequence { debug_id: 22001, args: rules_of3(r6, r12, r13) });
    proof {
        assert(r14@ == RuleV::Sequence(SequenceV { debug_id: 22001, args: seq![RuleV::Lines(LinesV { debug_id: 22002, rule: Box::new(RuleV::Sequence(SequenceV { debug_id: 22003, args: seq![RuleV::Whitespace(Whitespace { debug_id: 22004, optional: true }), RuleV::Select(SelectV { debug_id: 22005, args: seq![RuleV::Node(NodeV { debug_id: 22006, name: "string"@, property: Some("string"@), index: None }), RuleV::Node(NodeV { debug_id: 22007, name: "comment"@, property: None, index: None })] })] })), indent: false }), RuleV::Lines(LinesV { debug_id: 22008, rule: Box::new(RuleV::Sequence(SequenceV { debug_id: 22009, args: seq![RuleV::Whitespace(Whitespace { debug_id: 22010, optional: true }), RuleV::Select(SelectV { debug_id: 22011, args: seq![RuleV::Node(NodeV { debug_id: 22012, name: "node"@, property: Some("node"@), index: None }), RuleV::Node(NodeV { debug_id: 22013, name: "comment"@, property: None, index: None })] })] })), indent: false }), RuleV::Whitespace(Whitespace { debug_id: 22014, optional: true })] }));
    }
    r14
}

/// Returns rules for parsing meta rules.
pub fn rules() -> (s: Syntax)
    ensures
        s@ == bootstrap_syntax(),
{
    let mut syntax = Syntax::new();
    proof {
        assert(syntax@.names =~= bootstrap_names().take(0));
        assert(syntax@.rules =~= bootstrap_rules().take(0));
    }
    syntax.push(arc_text("multi_line_comment"), make_multi_line_comment());
    proof {
        assert(bootstrap_names().take(1) =~= bootstrap_names().take(0).push("multi_line_comment"@));
        assert(bootstrap_rules().take(1) =~= bootstrap_rules().take(0).push(multi_line_comment_rule()));
    }
    syntax.push(arc_text("comment"), make_comment());
    proof {
        assert(bootstrap_names().take(2) =~= bootstrap_names().take(1).push("comment"@));
        assert(bootstrap_rules().take(2) =~= bootstrap_rules().take(1).push(comment_rule()));
    }
    syntax.push(arc_text("string"), make_string());
    proof {
        assert(bootstrap_names().take(3) =~= bootstrap_names().take(2).push("string"@));
        assert(bootstrap_rules().take(3) =~= bootstrap_rules().take(2).push(string_rule()));
    }
    syntax.push(arc_text("node"), make_node());
    proof {
        assert(bootstrap_names().take(4) =~= bootstrap_names().take(3).push("node"@));
        assert(bootstrap_rules().take(4) =~= bootstrap_rules().take(3).push(node_rule()));
    }
    syntax.push(arc_text("set"), make_set());
    proof {
        assert(bootstrap_names().take(5) =~= bootstrap_names().take(4).push("set"@));
        assert(bootstrap_rules().take(5) =~= bootstrap_rules().take(4).push(set_rule()));
    }
    syntax.push(arc_text("set_opt"), make_set_opt());
    proof {
        assert(bootstrap_names().take(6) =~= bootstrap_names().take(5).push("set_opt"@));
        assert(bootstrap_rules().take(6) =~= bootstrap_rules().take(5).push(set_opt_rule()));
    }
    syntax.push(arc_text("opt"), make_opt());
    proof {
        assert(bootstrap_names().take(7) =~= bootstrap_names().take(6).push("opt"@));
        assert(bootstrap_rules().take(7) =~= bootstrap_rules().take(6).push(opt_rule()));
    }
    syntax.push(arc_text("number"), make_number());
    proof {
        assert(bootstrap_names().take(8) =~= bootstrap_names().take(7).push("number"@));
        assert(bootstrap_rules().take(8) =~= bootstrap_rules().take(7).push(number_rule()));
    }
    syntax.push(arc_text("text"), make_text());
    proof {
        assert(bootstrap_names().take(9) =~= bootstrap_names().take(8).push("text"@));
        assert(bootstrap_rules().take(9) =~= bootstrap_rules().take(8).push(text_rule()));
    }
    syntax.push(arc_text("reference"), make_reference());
    proof {
        assert(bootstrap_names().take(10) =~= bootstrap_names().take(9).push("reference"@));
        assert(bootstrap_rules().take(10) =~= bootstrap_rules().take(9).push(reference_rule()));
    }
    syntax.push(arc_text("sequence"), make_sequence());
    proof {
        assert(bootstrap_names().take(11) =~= bootstrap_names().take(10).push("sequence"@));
        assert(bootstrap_rules().take(11) =~= bootstrap_rules().take(10).push(sequence_rule()));
    }
    syntax.push(arc_text("select"), make_select());
    proof {
        assert(bootstrap_names().take(12) =~= bootstrap_names().take(11).push("select"@));
        assert(bootstrap_rules().take(12) =~= bootstrap_rules().take(11).push(select_rule()));
    }
    syntax.push(arc_text("separated_by"), make_separated_by());
    proof {
        assert(bootstrap_names().take(13) =~= bootstrap_names().take(12).push("separated_by"@));
        assert(bootstrap_rules().take(13) =~= bootstrap_rules().take(12).push(separated_by_rule()));
    }
    syntax.push(arc_text("tag"), make_tag());
    proof {
        assert(bootstrap_names().take(14) =~= bootstrap_names().take(13).push("tag"@));
        assert(bootstrap_rules().take(14) =~= bootstrap_rules().take(13).push(tag_rule()));
    }
    syntax.push(arc_text("optional"), make_optional());
    proof {
        assert(bootstrap_names().take(15) =~= bootstrap_names().take(14).push("optional"@));
        assert(bootstrap_rules().take(15) =~= bootstrap_rules().take(14).push(optional_rule()));
    }
    syntax.push(arc_text("not"), make_not());
    proof {
        assert(bootstrap_names().take(16) =~= bootstrap_names().take(15).push("not"@));
        assert(bootstrap_rules().take(16) =~= bootstrap_rules().take(15).push(not_rule()));
    }
    syntax.push(arc_text("whitespace"), make_whitespace());
    proof {
        assert(bootstrap_names().take(17) =~= bootstrap_names().take(16).push("whitespace"@));
        assert(bootstrap_rules().take(17) =~= bootstrap_rules().take(16).push(whitespace_rule()));
    }
    syntax.push(arc_text("until_any_or_whitespace"), make_until_any_or_whitespace());
    proof {
        assert(bootstrap_names().take(18) =~= bootstrap_names().take(17).push("until_any_or_whitespace"@));
        assert(bootstrap_rules().take(18) =~= bootstrap_rules().take(17).push(until_any_or_whitespace_rule()));
    }
    syntax.push(arc_text("until_any"), make_until_any());
    proof {
        assert(bootstrap_names().take(19) =~= bootstrap_names().take(18).push("until_any"@));
        assert(bootstrap_rules().take(19) =~= bootstrap_rules().take(18).push(until_any_rule()));
    }
    syntax.push(arc_text("repeat"), make_repeat());
    proof {
        assert(bootstrap_names().take(20) =~= bootstrap_names().take(19).push("repeat"@));
        assert(bootstrap_rules().take(20) =~= bootstrap_rules().take(19).push(repeat_rule()));
    }
    syntax.push(arc_text("lines"), make_lines());
    proof {
        assert(bootstrap_names().take(21) =~= bootstrap_names().take(20).push("lines"@));
        assert(bootstrap_rules().take(21) =~= bootstrap_rules().take(20).push(lines_rule()));
    }
    syntax.push(arc_text("rule"), make_rule());
    proof {
        assert(bootstrap_names().take(22) =~= bootstrap_names().take(21).push("rule"@));
        assert(bootstrap_rules().take(22) =~= bootstrap_rules().take(21).push(rule_rule()));
    }
    syntax.push(arc_text("document"), make_document());
    proof {
        assert(bootstrap_names().take(23) =~= bootstrap_names().take(22).push("document"@));
        assert(bootstrap_rules().take(23) =~= bootstrap_rules().take(22).push(document_rule()));
    }
    proof {
        assert(syntax@.names =~= bootstrap_names());
        assert(syntax@.rules =~= bootstrap_rules());
    }
    update_refs(&mut syntax);
    syntax
}

} // verus!
