//! The rules that describe how to read a document.

use std::sync::Arc;
use vstd::prelude::*;
use vstd::utf8::*;
use crate::range::Range;
use crate::read_token::{ReadToken, tail};
use crate::tokenizer::{TokenizerState};
use crate::{MetaData, names_view};
use super::{ParseResult, IndentSettings, Whitespace, Tag, UntilAny, UntilAnyOrWhitespace, Text, Number, Select, FastSelect, Sequence, SeparateBy, Repeat, Lines, Node, Optional, Not};
use super::semantics::{store_of, res_view, parse_rule, parse_ends, enough_fuel, parse_outcome};

verus! {

/// A rule describes how some section of a document should be parsed.
#[derive(Debug, PartialEq)]
pub enum Rule {
    /// Read whitespace.
    Whitespace(Whitespace),
    /// Match against a tag.
    Tag(Tag),
    /// Reads until any character.
    UntilAny(UntilAny),
    /// Read until any character or whitespace.
    UntilAnyOrWhitespace(UntilAnyOrWhitespace),
    /// Read text.
    Text(Text),
    /// Read number.
    Number(Number),
    /// Select one of the sub rules.
    /// If the first one does not succeed, try another and so on.
    /// If all sub rules fail, then the rule fails.
    Select(Select),
    /// Select a sub rule by the next byte.
    FastSelect(Box<FastSelect>),
    /// Run each sub rule in sequence.
    /// If any sub rule fails, the rule fails.
    Sequence(Sequence),
    /// Repeat rule separated by another rule.
    SeparateBy(Box<SeparateBy>),
    /// Repeat rule.
    Repeat(Box<Repeat>),
    /// Repeat rule separated by one or more lines.
    Lines(Box<Lines>),
    /// Read node.
    Node(Node),
    /// Read optional.
    Optional(Box<Optional>),
    /// Fails when the sub rule succeeds.
    Not(Box<Not>),
}


impl Rule {
    /// Parses rule.
    pub fn parse(
        &self,
        tokens: &mut Vec<Range<MetaData>>,
        state: &TokenizerState,
        read_token: &ReadToken,
        refs: &[Rule],
        indent_settings: &mut IndentSettings,
    ) -> (res: ParseResult<TokenizerState>)
        requires
            read_token@.wf(),
            parse_ends(self@, rules_view(refs@), read_token@, state.0, store_of(old(tokens)@, *old(indent_settings))),
        ensures
            (res_view(res), store_of(final(tokens)@, *final(indent_settings))) == parse_outcome(self@, rules_view(refs@), read_token@, state.0, store_of(old(tokens)@, *old(indent_settings))),
    {
        let ghost fuel = enough_fuel(self@, rules_view(refs@), read_token@, state.0, store_of(tokens@, *indent_settings));
        self.parse_fuel(tokens, state, read_token, refs, indent_settings, Ghost(fuel))
    }

    /// Parses rule with the given fuel.
    pub(crate) fn parse_fuel(
        &self,
        tokens: &mut Vec<Range<MetaData>>,
        state: &TokenizerState,
        read_token: &ReadToken,
        refs: &[Rule],
        indent_settings: &mut IndentSettings,
        Ghost(fuel): Ghost<nat>,
    ) -> (res: ParseResult<TokenizerState>)
        requires
            read_token@.wf(),
            parse_rule(self@, rules_view(refs@), read_token@, state.0, store_of(old(tokens)@, *old(indent_settings)), fuel) is Some,
        ensures
            (res_view(res), store_of(final(tokens)@, *final(indent_settings))) == parse_rule(self@, rules_view(refs@), read_token@, state.0, store_of(old(tokens)@, *old(indent_settings)), fuel)->0,
        decreases fuel, 0nat,
    {
        let f = Ghost((fuel - 1) as nat);
        match self {
            Rule::Whitespace(w) => match w.parse(read_token) {
                Ok(r) => Ok((r, *state, None)),
                Err(e) => Err(e),
            },
            Rule::Tag(t) => t.parse(tokens, state, read_token),
            Rule::UntilAny(u) => u.parse(tokens, state, read_token),
            Rule::UntilAnyOrWhitespace(u) => u.parse(tokens, state, read_token),
            Rule::Text(t) => t.parse(tokens, state, read_token),
            Rule::Number(n) => n.parse(tokens, state, read_token),
            Rule::Select(s) => s.parse_fuel(tokens, state, read_token, refs, indent_settings, f),
            Rule::FastSelect(s) => s.parse_fuel(tokens, state, read_token, refs, indent_settings, f),
            Rule::Sequence(s) => s.parse_fuel(tokens, state, read_token, refs, indent_settings, f),
            Rule::SeparateBy(s) => s.parse_fuel(tokens, state, read_token, refs, indent_settings, f),
            Rule::Repeat(r) => r.parse_fuel(tokens, state, read_token, refs, indent_settings, f),
            Rule::Lines(l) => l.parse_fuel(tokens, state, read_token, refs, indent_settings, f),
            Rule::Node(n) => n.parse_fuel(tokens, state, read_token, refs, indent_settings, f),
            Rule::Optional(o) => Ok(o.parse_fuel(tokens, state, read_token, refs, indent_settings, f)),
            Rule::Not(n) => n.parse_fuel(tokens, state, read_token, refs, indent_settings, f),
        }
    }

    /// Updates replacing names with the references.
    ///
    /// The references contains the name,
    /// but this can not be borrowed as when the same reference is updated.
    pub fn update_refs(&mut self, names: &[Arc<String>])
        ensures
            final(self)@ == refs_updated(old(self)@, names_view(names@)),
        decreases old(self)@,
    {
        match self {
            Rule::Node(p) => {
                if p.index.is_none() {
                    let mut found: Option<usize> = None;
                    let mut i: usize = 0;
                    while i < names.len()
                        invariant_except_break
                            found is None,
                        invariant
                            i <= names@.len(),
                            find_name(names_view(names@), p.name@, 0) == find_name(names_view(names@), p.name@, i as int),
                        ensures
                            found == find_name(names_view(names@), p.name@, 0),
                        decreases names@.len() - i,
                    {
                        proof {
                            assert(names_view(names@)[i as int] == names@[i as int]@);
                        }
                        if *p.name == *names[i] {
                            found = Some(i);
                            break;
                        }
                        i = i + 1;
                    }
                    p.index = found;
                }
            },
            Rule::Select(sel_rule) => {
                let args = &mut sel_rule.args;
                let ghost old_args = args@;
                proof {
                    lemma_rules_view(old_args);
                }
                let mut i: usize = 0;
                while i < args.len()
                    invariant
                        i <= args.len(),
                        args@.len() == old_args.len(),
                        rules_view(old_args).len() == old_args.len(),
                        forall|j: int| 0 <= j < old_args.len() ==> #[trigger] rules_view(old_args)[j] == old_args[j]@,
                        old(self)@ matches RuleV::Select(sel) ==> sel.args == rules_view(old_args),
                        old(self)@ matches RuleV::Sequence(sq) ==> sq.args == rules_view(old_args),
                        old(self)@ is Select || old(self)@ is Sequence,
                        forall|j: int| 0 <= j < i ==> (#[trigger] args@[j])@ == refs_updated(old_args[j]@, names_view(names@)),
                        forall|j: int| i <= j < args@.len() ==> #[trigger] args@[j] == old_args[j],
                    decreases args.len() - i,
                {
                    proof {
                        assert(rules_view(old_args)[i as int] == args@[i as int]@);
                        if old(self)@ is Select {
                            assert(decreases_to!(old(self)@ => rules_view(old_args)[i as int]));
                        } else {
                            assert(decreases_to!(old(self)@ => rules_view(old_args)[i as int]));
                        }
                    }
                    args[i].update_refs(names);
                    i = i + 1;
                }
                proof {
                    lemma_rules_view(args@);
                    lemma_args_updated(rules_view(old_args), names_view(names@));
                    assert(rules_view(args@) =~= args_updated(rules_view(old_args), names_view(names@)));
                }
            },
            Rule::Sequence(seq_rule) => {
                let args = &mut seq_rule.args;
                let ghost old_args = args@;
                proof {
                    lemma_rules_view(old_args);
                }
                let mut i: usize = 0;
                while i < args.len()
                    invariant
                        i <= args.len(),
                        args@.len() == old_args.len(),
                        rules_view(old_args).len() == old_args.len(),
                        forall|j: int| 0 <= j < old_args.len() ==> #[trigger] rules_view(old_args)[j] == old_args[j]@,
                        old(self)@ matches RuleV::Select(sel) ==> sel.args == rules_view(old_args),
                        old(self)@ matches RuleV::Sequence(sq) ==> sq.args == rules_view(old_args),
                        old(self)@ is Select || old(self)@ is Sequence,
                        forall|j: int| 0 <= j < i ==> (#[trigger] args@[j])@ == refs_updated(old_args[j]@, names_view(names@)),
                        forall|j: int| i <= j < args@.len() ==> #[trigger] args@[j] == old_args[j],
                    decreases args.len() - i,
                {
                    proof {
                        assert(rules_view(old_args)[i as int] == args@[i as int]@);
                        if old(self)@ is Select {
                            assert(decreases_to!(old(self)@ => rules_view(old_args)[i as int]));
                        } else {
                            assert(decreases_to!(old(self)@ => rules_view(old_args)[i as int]));
                        }
                    }
                    args[i].update_refs(names);
                    i = i + 1;
                }
                proof {
                    lemma_rules_view(args@);
                    lemma_args_updated(rules_view(old_args), names_view(names@));
                    assert(rules_view(args@) =~= args_updated(rules_view(old_args), names_view(names@)));
                }
            },
            Rule::SeparateBy(s) => {
                s.rule.update_refs(names);
                s.by.update_refs(names);
            },
            Rule::Repeat(r) => r.rule.update_refs(names),
            Rule::Lines(l) => l.rule.update_refs(names),
            Rule::Optional(o) => o.rule.update_refs(names),
            Rule::Not(n) => n.rule.update_refs(names),
            _ => {},
        }
    }
}

/// The index of the first of `names` from the `i`-th on that equals `name`.
pub open spec fn find_name(names: Seq<Seq<char>>, name: Seq<char>, i: int) -> Option<usize>
    decreases names.len() - i,
{
    if i < 0 || i >= names.len() {
        None
    } else if names[i] == name {
        Some(i as usize)
    } else {
        find_name(names, name, i + 1)
    }
}

/// A rule where each node without a reference refers to the first rule
/// whose name is the node's name, if there is one.
pub open spec fn refs_updated(r: RuleV, names: Seq<Seq<char>>) -> RuleV
    decreases r,
{
    match r {
        RuleV::Node(n) => match n.index {
            None => RuleV::Node(NodeV { index: find_name(names, n.name, 0), ..n }),
            Some(_) => r,
        },
        RuleV::Select(s) => RuleV::Select(SelectV { args: args_updated(s.args, names), ..s }),
        RuleV::Sequence(s) => RuleV::Sequence(SequenceV { args: args_updated(s.args, names), ..s }),
        RuleV::SeparateBy(s) => RuleV::SeparateBy(SeparateByV { rule: Box::new(refs_updated(*s.rule, names)), by: Box::new(refs_updated(*s.by, names)), ..s }),
        RuleV::Repeat(rep) => RuleV::Repeat(RepeatV { rule: Box::new(refs_updated(*rep.rule, names)), ..rep }),
        RuleV::Lines(l) => RuleV::Lines(LinesV { rule: Box::new(refs_updated(*l.rule, names)), ..l }),
        RuleV::Optional(o) => RuleV::Optional(OptionalV { rule: Box::new(refs_updated(*o.rule, names)), ..o }),
        RuleV::Not(n) => RuleV::Not(NotV { rule: Box::new(refs_updated(*n.rule, names)), ..n }),
        _ => r,
    }
}

/// Each rule of a list with its references updated.
pub open spec fn args_updated(s: Seq<RuleV>, names: Seq<Seq<char>>) -> Seq<RuleV>
    decreases s,
{
    if s.len() == 0 {
        Seq::empty()
    } else {
        args_updated(s.subrange(0, s.len() - 1), names).push(refs_updated(s[s.len() - 1], names))
    }
}

/// A list of rules with its references updated holds each rule updated.
pub proof fn lemma_args_updated(s: Seq<RuleV>, names: Seq<Seq<char>>)
    ensures
        args_updated(s, names).len() == s.len(),
        forall|i: int| 0 <= i < s.len() ==> #[trigger] args_updated(s, names)[i] == refs_updated(s[i], names),
    decreases s.len(),
{
    if s.len() > 0 {
        let sub = s.subrange(0, s.len() - 1);
        lemma_args_updated(sub, names);
        assert forall|i: int| 0 <= i < s.len() implies #[trigger] args_updated(s, names)[i] == refs_updated(s[i], names) by {
            if i < s.len() - 1 {
                assert(sub[i] == s[i]);
            }
        }
    }
}

/// The index that updating references gives a node is the index of the
/// first rule with the node's name, or none where no rule has it.
pub proof fn lemma_find_name(names: Seq<Seq<char>>, name: Seq<char>, i: int)
    requires
        0 <= i,
        names.len() <= usize::MAX,
    ensures
        find_name(names, name, i) matches Some(k) ==> i <= k < names.len() && names[k as int] == name && forall|j: int| i <= j < k ==> names[j] != name,
        find_name(names, name, i) is None ==> forall|j: int| i <= j < names.len() ==> names[j] != name,
    decreases names.len() - i,
{
    if i < names.len() && names[i] != name {
        lemma_find_name(names, name, i + 1);
    }
}

/// Updating the references of a rule a second time changes nothing.
pub proof fn lemma_refs_updated_twice(r: RuleV, names: Seq<Seq<char>>)
    ensures
        refs_updated(refs_updated(r, names), names) == refs_updated(r, names),
    decreases r,
{
    match r {
        RuleV::Node(n) => {},
        RuleV::Select(sel) => lemma_args_updated_twice(sel.args, names),
        RuleV::Sequence(seq) => lemma_args_updated_twice(seq.args, names),
        RuleV::SeparateBy(sep) => {
            lemma_refs_updated_twice(*sep.rule, names);
            lemma_refs_updated_twice(*sep.by, names);
        },
        RuleV::Repeat(rep) => lemma_refs_updated_twice(*rep.rule, names),
        RuleV::Lines(l) => lemma_refs_updated_twice(*l.rule, names),
        RuleV::Optional(o) => lemma_refs_updated_twice(*o.rule, names),
        RuleV::Not(n) => lemma_refs_updated_twice(*n.rule, names),
        _ => {},
    }
}

/// Updating the references of a list of rules a second time changes nothing.
pub proof fn lemma_args_updated_twice(s: Seq<RuleV>, names: Seq<Seq<char>>)
    ensures
        args_updated(args_updated(s, names), names) == args_updated(s, names),
    decreases s,
{
    lemma_args_updated(s, names);
    lemma_args_updated(args_updated(s, names), names);
    assert forall|i: int| 0 <= i < s.len() implies #[trigger] args_updated(args_updated(s, names), names)[i] == args_updated(s, names)[i] by {
        assert(decreases_to!(s => s[i]));
        lemma_refs_updated_twice(s[i], names);
    }
    assert(args_updated(args_updated(s, names), names) =~= args_updated(s, names));
}

/// Updates the references in a list of rules.
pub(crate) fn update_args(args: &mut Vec<Rule>, names: &[Arc<String>])
    ensures
        rules_view(final(args)@) == args_updated(rules_view(old(args)@), names_view(names@)),
{
    let ghost old_args = args@;
    let mut i: usize = 0;
    while i < args.len()
        invariant
            i <= args.len(),
            args@.len() == old_args.len(),
            forall|j: int| 0 <= j < i ==> (#[trigger] args@[j])@ == refs_updated(old_args[j]@, names_view(names@)),
            forall|j: int| i <= j < args@.len() ==> #[trigger] args@[j] == old_args[j],
        decreases args.len() - i,
    {
        args[i].update_refs(names);
        i = i + 1;
    }
    proof {
        lemma_rules_view(args@);
        lemma_rules_view(old_args);
        lemma_args_updated(rules_view(old_args), names_view(names@));
        assert(rules_view(args@) =~= args_updated(rules_view(old_args), names_view(names@)));
    }
}

/// The view of an optional name.
pub open spec fn name_view(p: Option<Arc<String>>) -> Option<Seq<char>> {
    match p {
        Some(n) => Some(n@),
        None => None,
    }
}

/// The view of a tag rule.
pub struct TokenV {
    /// The text to match against.
    pub text: Seq<char>,
    /// Whether to fail when matching against text.
    pub not: bool,
    /// Whether to set the property to false.
    pub inverted: bool,
    /// Which property to set.
    pub property: Option<Seq<char>>,
    /// The debug id.
    pub debug_id: usize,
}

/// The view of a rule that reads until some characters.
pub struct UntilAnyV {
    /// The characters to stop at.
    pub any_characters: Seq<char>,
    /// Whether empty data is accepted.
    pub optional: bool,
    /// The property to store read text.
    pub property: Option<Seq<char>>,
    /// The debug id.
    pub debug_id: usize,
}

/// The view of a text rule.
pub struct TextV {
    /// Whether to allow empty string.
    pub allow_empty: bool,
    /// Which property to set.
    pub property: Option<Seq<char>>,
    /// The debug id.
    pub debug_id: usize,
}

/// The view of a number rule.
pub struct NumberV {
    /// Which property to set.
    pub property: Option<Seq<char>>,
    /// The debug id.
    pub debug_id: usize,
    /// Whether underscore is allowed as visible separator.
    pub allow_underscore: bool,
}

/// The view of a select rule.
pub struct SelectV {
    /// The rules to select from.
    pub args: Seq<RuleV>,
    /// The debug id.
    pub debug_id: usize,
}

/// The view of a select rule with a lookup table.
pub struct FastSelectV {
    /// The lookup table.
    pub table: Seq<u8>,
    /// The rules to select from.
    pub args: Seq<RuleV>,
    /// Whether the last rule is used when the lookup fails.
    pub tail: bool,
    /// The debug id.
    pub debug_id: usize,
}

/// The view of a sequence rule.
pub struct SequenceV {
    /// The sequential rules.
    pub args: Seq<RuleV>,
    /// The debug id.
    pub debug_id: usize,
}

/// The view of a separated-by rule.
pub struct SeparateByV {
    /// The rule to separate.
    pub rule: Box<RuleV>,
    /// The rule to separate by.
    pub by: Box<RuleV>,
    /// Whether the rule must occur at least once.
    pub optional: bool,
    /// Whether the rule can end with separator.
    pub allow_trail: bool,
    /// The debug id.
    pub debug_id: usize,
}

/// The view of a repeat rule.
pub struct RepeatV {
    /// The rule to repeat.
    pub rule: Box<RuleV>,
    /// Whether zero repetitions are allowed.
    pub optional: bool,
    /// The debug id.
    pub debug_id: usize,
}

/// The view of a lines rule.
pub struct LinesV {
    /// The rule to read lines.
    pub rule: Box<RuleV>,
    /// The debug id.
    pub debug_id: usize,
    /// Whether to increase indention.
    pub indent: bool,
}

/// The view of a node rule.
pub struct NodeV {
    /// Name of rule.
    pub name: Seq<char>,
    /// The property to set.
    pub property: Option<Seq<char>>,
    /// The debug id.
    pub debug_id: usize,
    /// The index to the rule reference.
    pub index: Option<usize>,
}

/// The view of an optional rule.
pub struct OptionalV {
    /// The optional rule.
    pub rule: Box<RuleV>,
    /// The debug id.
    pub debug_id: usize,
}

/// The view of a not rule.
pub struct NotV {
    /// The rule that must fail.
    pub rule: Box<RuleV>,
    /// The debug id.
    pub debug_id: usize,
}

/// The mathematical view of a rule: texts as character sequences and
/// lists of rules as sequences.
pub enum RuleV {
    /// Read whitespace.
    Whitespace(Whitespace),
    /// Match against a tag.
    Tag(TokenV),
    /// Reads until any character.
    UntilAny(UntilAnyV),
    /// Read until any character or whitespace.
    UntilAnyOrWhitespace(UntilAnyV),
    /// Read text.
    Text(TextV),
    /// Read number.
    Number(NumberV),
    /// Select one of the sub rules.
    Select(SelectV),
    /// Select a sub rule by the next byte.
    FastSelect(FastSelectV),
    /// Run each sub rule in sequence.
    Sequence(SequenceV),
    /// Repeat rule separated by another rule.
    SeparateBy(SeparateByV),
    /// Repeat rule.
    Repeat(RepeatV),
    /// Repeat rule separated by lines.
    Lines(LinesV),
    /// Read node.
    Node(NodeV),
    /// Read optional.
    Optional(OptionalV),
    /// Fails when the sub rule succeeds.
    Not(NotV),
}

impl View for Rule {
    type V = RuleV;

    open spec fn view(&self) -> RuleV
        decreases self,
    {
        match self {
            Rule::Whitespace(w) => RuleV::Whitespace(*w),
            Rule::Tag(t) => RuleV::Tag(TokenV { text: t.text@, not: t.not, inverted: t.inverted, property: name_view(t.property), debug_id: t.debug_id }),
            Rule::UntilAny(u) => RuleV::UntilAny(UntilAnyV { any_characters: u.any_characters@, optional: u.optional, property: name_view(u.property), debug_id: u.debug_id }),
            Rule::UntilAnyOrWhitespace(u) => RuleV::UntilAnyOrWhitespace(UntilAnyV { any_characters: u.any_characters@, optional: u.optional, property: name_view(u.property), debug_id: u.debug_id }),
            Rule::Text(t) => RuleV::Text(TextV { allow_empty: t.allow_empty, property: name_view(t.property), debug_id: t.debug_id }),
            Rule::Number(n) => RuleV::Number(NumberV { property: name_view(n.property), debug_id: n.debug_id, allow_underscore: n.allow_underscore }),
            Rule::Select(s) => RuleV::Select(SelectV { args: rules_view(s.args@), debug_id: s.debug_id }),
            Rule::FastSelect(s) => RuleV::FastSelect(FastSelectV { table: s.table@, args: rules_view(s.args@), tail: s.tail, debug_id: s.debug_id }),
            Rule::Sequence(s) => RuleV::Sequence(SequenceV { args: rules_view(s.args@), debug_id: s.debug_id }),
            Rule::SeparateBy(s) => RuleV::SeparateBy(SeparateByV { rule: Box::new(s.rule.view()), by: Box::new(s.by.view()), optional: s.optional, allow_trail: s.allow_trail, debug_id: s.debug_id }),
            Rule::Repeat(r) => RuleV::Repeat(RepeatV { rule: Box::new(r.rule.view()), optional: r.optional, debug_id: r.debug_id }),
            Rule::Lines(l) => RuleV::Lines(LinesV { rule: Box::new(l.rule.view()), debug_id: l.debug_id, indent: l.indent }),
            Rule::Node(n) => RuleV::Node(NodeV { name: n.name@, property: name_view(n.property), debug_id: n.debug_id, index: n.index }),
            Rule::Optional(o) => RuleV::Optional(OptionalV { rule: Box::new(o.rule.view()), debug_id: o.debug_id }),
            Rule::Not(n) => RuleV::Not(NotV { rule: Box::new(n.rule.view()), debug_id: n.debug_id }),
        }
    }
}

/// The views of a list of rules.
pub open spec fn rules_view(s: Seq<Rule>) -> Seq<RuleV>
    decreases s,
{
    if s.len() == 0 {
        Seq::empty()
    } else {
        rules_view(s.subrange(0, s.len() - 1)).push(s[s.len() - 1].view())
    }
}

/// The views of a list of rules have the list's length and hold the
/// view of each rule.
pub proof fn lemma_rules_view(s: Seq<Rule>)
    ensures
        rules_view(s).len() == s.len(),
        forall|i: int| 0 <= i < s.len() ==> #[trigger] rules_view(s)[i] == s[i]@,
    decreases s.len(),
{
    if s.len() > 0 {
        let sub = s.subrange(0, s.len() - 1);
        lemma_rules_view(sub);
        assert(rules_view(s) == rules_view(sub).push(s[s.len() - 1]@));
        assert forall|i: int| 0 <= i < s.len() implies #[trigger] rules_view(s)[i] == s[i]@ by {
            if i < s.len() - 1 {
                assert(sub[i] == s[i]);
            }
        }
    }
}

/// Lists of rules with equal views one by one have equal views.
pub proof fn lemma_rules_view_eq(a: Seq<Rule>, b: Seq<Rule>)
    requires
        a.len() == b.len(),
        forall|i: int| 0 <= i < a.len() ==> (#[trigger] a[i])@ == b[i]@,
    ensures
        rules_view(a) == rules_view(b),
{
    lemma_rules_view(a);
    lemma_rules_view(b);
    assert(rules_view(a) =~= rules_view(b));
}

impl Clone for Rule {
    fn clone(&self) -> (r: Self)
        ensures
            r@ == self@,
        decreases self,
    {
        match self {
            Rule::Whitespace(w) => Rule::Whitespace(*w),
            Rule::Tag(t) => Rule::Tag(t.clone()),
            Rule::UntilAny(u) => Rule::UntilAny(u.clone()),
            Rule::UntilAnyOrWhitespace(u) => Rule::UntilAnyOrWhitespace(u.clone()),
            Rule::Text(t) => Rule::Text(t.clone()),
            Rule::Number(n) => Rule::Number(n.clone()),
            Rule::Select(s) => Rule::Select(s.clone()),
            Rule::FastSelect(s) => Rule::FastSelect(Box::new((**s).clone())),
            Rule::Sequence(s) => Rule::Sequence(s.clone()),
            Rule::SeparateBy(s) => Rule::SeparateBy(Box::new((**s).clone())),
            Rule::Repeat(r) => Rule::Repeat(Box::new((**r).clone())),
            Rule::Lines(l) => Rule::Lines(Box::new((**l).clone())),
            Rule::Node(n) => Rule::Node(n.clone()),
            Rule::Optional(o) => Rule::Optional(Box::new((**o).clone())),
            Rule::Not(n) => Rule::Not(Box::new((**n).clone())),
        }
    }
}

/// Clones a list of rules.
pub fn clone_rules(v: &Vec<Rule>) -> (r: Vec<Rule>)
    ensures
        rules_view(r@) == rules_view(v@),
    decreases v,
{
    let mut r: Vec<Rule> = Vec::new();
    let mut i: usize = 0;
    while i < v.len()
        invariant
            i <= v.len(),
            r@.len() == i,
            forall|j: int| 0 <= j < i ==> (#[trigger] r@[j])@ == v@[j]@,
        decreases v.len() - i,
    {
        proof {
            assert(decreases_to!(v => v@[i as int]));
        }
        r.push(v[i].clone());
        i = i + 1;
    }
    proof {
        lemma_rules_view_eq(r@, v@);
    }
    r
}

} // verus!
