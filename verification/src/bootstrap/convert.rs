//! Converting meta data into rules.

use std::sync::Arc;
use vstd::prelude::*;
use vstd::string::StringSliceAdditionalSpecFns;
use crate::range::Range;
use crate::{MetaData, Syntax, SyntaxV};
use crate::tokenizer::toks_view;
use crate::read_token::{ReadToken, share};
use crate::text::chars_of;
use crate::meta_rules::{Rule, RuleV, Whitespace, Tag, UntilAny, UntilAnyOrWhitespace, Text, Number, Select, Sequence, SeparateBy, Repeat, Lines, Node, Optional, update_refs, rules_view, lemma_rules_view, args_updated, name_view};
use super::reading;
use super::reading::{ConvertV, Strings, Carry, ignore_loop, find_string, read_string_loop, read_set_loop, ignore_step, next_id, Props, no_props, Kind, kind_node, make_rule, flag1_name, flag2_name, text_set_name, has_property, has_rule, with_rule, props_step, kind_of, numeral_usize, NodeAcc, read_node_loop, read_strings, read_nodes, convert_spec};

verus! {

/// Stores state when converting from meta data.
#[derive(Copy, Clone, Debug)]
pub struct Convert<'a> {
    data: &'a [Range<MetaData>],
    offset: usize,
}

impl<'a> View for Convert<'a> {
    type V = ConvertV;

    closed spec fn view(&self) -> ConvertV {
        ConvertV { data: toks_view(self.data@), offset: self.offset as int }
    }
}

/// Whether two texts are equal.
fn same_text(a: &str, b: &str) -> (r: bool)
    ensures
        r == (a@ == b@),
{
    let x = chars_of(a);
    let y = chars_of(b);
    if x.len() != y.len() {
        return false;
    }
    let mut i: usize = 0;
    while i < x.len()
        invariant
            x@ == a@,
            y@ == b@,
            x@.len() == y@.len(),
            i <= x@.len(),
            forall|j: int| 0 <= j < i ==> x@[j] == y@[j],
        decreases x@.len() - i,
    {
        if x[i] != y[i] {
            return false;
        }
        i = i + 1;
    }
    proof {
        assert(x@ =~= y@);
    }
    true
}

impl<'a> Convert<'a> {
    /// Whether the position holds its items within the range of `usize`.
    pub closed spec fn wf(&self) -> bool {
        self.offset + self.data@.len() <= usize::MAX
    }

    /// Creates a new `Convert`.
    pub fn new(data: &'a [Range<MetaData>]) -> (c: Convert<'a>)
        ensures
            c@ == (ConvertV { data: toks_view(data@), offset: 0 }),
            c.wf(),
    {
        let n = data.len();
        Convert { data, offset: 0 }
    }

    /// Returns the length of remaining data.
    pub fn remaining_data_len(&self) -> (n: usize)
        ensures
            n == self@.data.len(),
    {
        self.data.len()
    }

    /// Returns the difference in offset.
    pub fn subtract(self, rhs: Convert) -> (r: Range)
        requires
            rhs@.offset <= self@.offset,
        ensures
            r == self@.since(rhs@),
    {
        Range::new(rhs.offset, self.offset - rhs.offset)
    }

    /// Returns the subtracted range in source (union of meta data ranges):
    /// from the start of the first item read since `rhs` to the end of the
    /// last one.
    pub fn source(self, rhs: Convert) -> (r: Option<Range>)
        requires
            rhs@.data.len() == 0 || self@.offset <= rhs@.offset || (
                self@.offset - rhs@.offset - 1 < rhs@.data.len()
                && rhs@.data[0].offset <= rhs@.data[self@.offset - rhs@.offset - 1].offset + rhs@.data[self@.offset - rhs@.offset - 1].length <= usize::MAX),
        ensures
            r == if rhs@.data.len() == 0 || self@.offset <= rhs@.offset {
                None
            } else {
                let last = rhs@.data[self@.offset - rhs@.offset - 1];
                Some(Range { offset: rhs@.data[0].offset, length: (last.offset + last.length - rhs@.data[0].offset) as usize, data: () })
            },
    {
        if rhs.data.len() == 0 || self.offset <= rhs.offset {
            return None;
        }
        let start = rhs.data[0].offset;
        let end = rhs.data[self.offset - rhs.offset - 1].next_offset();
        Some(Range::new(start, end - start))
    }

    /// Updates with parsed range.
    pub fn update(&mut self, range: Range)
        requires
            old(self)@.advances(range) || range.end() == old(self)@.offset,
            old(self).wf(),
        ensures
            final(self)@ == old(self)@.update(range),
            final(self).wf(),
    {
        let next_offset = range.next_offset();
        let (_, rest) = self.data.split_at(next_offset - self.offset);
        self.data = rest;
        self.offset = next_offset;
        proof {
            assert(toks_view(self.data@) =~= toks_view(old(self).data@).subrange(next_offset - old(self).offset, old(self).data@.len() as int));
        }
    }

    /// Moves past the first item.
    fn advance(&mut self)
        requires
            old(self)@.data.len() > 0,
            old(self).wf(),
        ensures
            final(self)@ == old(self)@.next(),
            final(self).wf(),
    {
        let r = Range::new(self.offset, 1);
        self.update(r);
        proof {
            assert(final(self)@.data =~= old(self)@.next().data);
        }
    }

    /// Reads start node.
    pub fn start_node(&self, name: &str) -> (r: Result<Range, ()>)
        ensures
            r == if self@.starts(name@) { Ok(Range { offset: self@.offset as usize, length: 1, data: () }) } else { Err::<Range, ()>(()) },
    {
        if self.data.len() == 0 {
            return Err(());
        }
        proof {
            assert(self@.data[0].data == self.data@[0].data@);
        }
        match &self.data[0].data {
            MetaData::StartNode(n) => if same_text(n.as_str(), name) { Ok(Range::new(self.offset, 1)) } else { Err(()) },
            _ => Err(()),
        }
    }

    /// Reads end node.
    pub fn end_node(&self, name: &str) -> (r: Result<Range, ()>)
        ensures
            r == if self@.ends(name@) { Ok(Range { offset: self@.offset as usize, length: 1, data: () }) } else { Err::<Range, ()>(()) },
    {
        if self.data.len() == 0 {
            return Err(());
        }
        proof {
            assert(self@.data[0].data == self.data@[0].data@);
        }
        match &self.data[0].data {
            MetaData::EndNode(n) => if same_text(n.as_str(), name) { Ok(Range::new(self.offset, 1)) } else { Err(()) },
            _ => Err(()),
        }
    }

    /// Ignores next item.
    /// If this is the start of a node, it ignores all items to the end node.
    pub fn ignore(&self) -> (r: Range)
        requires
            self@.ignore_len() is Some,
        ensures
            r == self@.ignore_range(self@.ignore_len()->0),
    {
        let ghost v = self@.data;
        let mut acc: usize = 0;
        let mut len: usize = 0;
        let mut i: usize = 0;
        while i < self.data.len()
            invariant_except_break
                ignore_loop(v, 0, 0) == ignore_loop(v, i as int, acc as int),
                i > 0 ==> acc > 0,
            invariant
                v == toks_view(self.data@),
                v.len() == self.data@.len(),
                i <= self.data@.len(),
                len == i,
                acc <= i,
                ignore_loop(v, 0, 0) is Some,
            ensures
                ignore_loop(v, 0, 0) == Some(len as int),
            decreases self.data@.len() - i,
        {
            proof {
                assert(v[i as int].data == self.data@[i as int].data@);
            }
            match &self.data[i].data {
                MetaData::StartNode(_) => acc = acc + 1,
                MetaData::EndNode(_) => acc = acc - 1,
                _ => {},
            }
            len = len + 1;
            i = i + 1;
            if acc == 0 {
                break;
            }
        }
        Range::new(self.offset, len)
    }

    /// Reads string.
    pub fn meta_string(&self, name: &str) -> (r: Result<(Range, Arc<String>), ()>)
        ensures
            match r {
                Ok((range, val)) => self@.meta_string(name@) == Some(val@) && range == (Range { offset: self@.offset as usize, length: 1, data: () }),
                Err(()) => self@.meta_string(name@) is None,
            },
    {
        if self.data.len() == 0 {
            return Err(());
        }
        proof {
            assert(self@.data[0].data == self.data@[0].data@);
        }
        match &self.data[0].data {
            MetaData::String(n, val) => if same_text(n.as_str(), name) { Ok((Range::new(self.offset, 1), share(val))) } else { Err(()) },
            _ => Err(()),
        }
    }

    /// Reads a number, as written.
    pub fn meta_f64(&self, name: &str) -> (r: Result<(Range, Arc<String>), ()>)
        ensures
            match r {
                Ok((range, val)) => self@.meta_f64(name@) == Some(val@) && range == (Range { offset: self@.offset as usize, length: 1, data: () }),
                Err(()) => self@.meta_f64(name@) is None,
            },
    {
        if self.data.len() == 0 {
            return Err(());
        }
        proof {
            assert(self@.data[0].data == self.data@[0].data@);
        }
        match &self.data[0].data {
            MetaData::F64(n, val) => if same_text(n.as_str(), name) { Ok((Range::new(self.offset, 1), share(val))) } else { Err(()) },
            _ => Err(()),
        }
    }

    /// Reads bool.
    pub fn meta_bool(&self, name: &str) -> (r: Result<(Range, bool), ()>)
        ensures
            match r {
                Ok((range, val)) => self@.meta_bool(name@) == Some(val) && range == (Range { offset: self@.offset as usize, length: 1, data: () }),
                Err(()) => self@.meta_bool(name@) is None,
            },
    {
        if self.data.len() == 0 {
            return Err(());
        }
        proof {
            assert(self@.data[0].data == self.data@[0].data@);
        }
        match &self.data[0].data {
            MetaData::Bool(n, val) => if same_text(n.as_str(), name) { Ok((Range::new(self.offset, 1), *val)) } else { Err(()) },
            _ => Err(()),
        }
    }
}


/// The view of a list of string definitions.
pub open spec fn strings_view(s: Seq<(Arc<String>, Arc<String>)>) -> Strings {
    s.map_values(|x: (Arc<String>, Arc<String>)| (x.0@, x.1@))
}

/// The view of the result of reading a rule.
pub open spec fn rule_res(r: Result<(Range, Rule), ()>) -> Result<(Range, RuleV), ()> {
    match r {
        Ok((range, rule)) => Ok((range, rule@)),
        Err(()) => Err(()),
    }
}

/// The view of the result of reading a text.
pub open spec fn text_res(r: Result<(Range, Arc<String>), ()>) -> Result<(Range, Seq<char>), ()> {
    match r {
        Ok((range, t)) => Ok((range, t@)),
        Err(()) => Err(()),
    }
}

/// Finds the text of the first string definition with the name.
fn find_text(val: &str, strings: &[(Arc<String>, Arc<String>)]) -> (r: Option<Arc<String>>)
    ensures
        match r {
            Some(t) => find_string(val@, strings_view(strings@), 0) == Some(t@),
            None => find_string(val@, strings_view(strings@), 0) is None,
        },
{
    let ghost sv = strings_view(strings@);
    let mut i: usize = 0;
    while i < strings.len()
        invariant
            sv == strings_view(strings@),
            sv.len() == strings@.len(),
            i <= strings@.len(),
            find_string(val@, sv, 0) == find_string(val@, sv, i as int),
        decreases strings@.len() - i,
    {
        proof {
            assert(sv[i as int] == (strings@[i as int].0@, strings@[i as int].1@));
        }
        if same_text(strings[i].0.as_str(), val) {
            return Some(share(&strings[i].1));
        }
        i = i + 1;
    }
    None
}

/// Reads a string definition.
fn read_string(convert: Convert) -> (r: Result<(Range, (Arc<String>, Arc<String>)), ()>)
    requires
        convert.wf(),
    ensures
        match r {
            Ok((range, (n, t))) => reading::read_string(convert@) == Ok::<(Range, (Seq<char>, Seq<char>)), ()>((range, (n@, t@))),
            Err(()) => reading::read_string(convert@) is Err,
        },
{
    if convert.start_node("string").is_err() {
        return Err(());
    }
    let start = convert;
    let mut c = convert;
    c.advance();
    let mut name: Option<Arc<String>> = None;
    let mut text: Option<Arc<String>> = None;
    loop
        invariant
            c.wf(),
            start.offset <= c.offset,
            start@ == convert@,
            reading::read_string(start@) == read_string_loop(start@, c@, name_view(name), name_view(text)),
            start@.starts("string"@),
        decreases c@.data.len(),
    {
        if c.remaining_data_len() == 0 {
            return Err(());
        }
        if let Ok((_, val)) = c.meta_string("name") {
            name = Some(val);
            c.advance();
        } else if let Ok((_, val)) = c.meta_string("text") {
            text = Some(val);
            c.advance();
        } else if c.end_node("string").is_ok() {
            c.advance();
            match (name, text) {
                (Some(n), Some(t)) => {
                    return Ok((c.subtract(start), (n, t)));
                },
                _ => {
                    return Err(());
                },
            }
        } else {
            return Err(());
        }
    }
}

/// Reads a set: a text given by value or by reference to a string.
fn read_set(property: &str, convert: Convert, strings: &[(Arc<String>, Arc<String>)]) -> (r: Result<(Range, Arc<String>), ()>)
    requires
        convert.wf(),
    ensures
        text_res(r) == reading::read_set(property@, convert@, strings_view(strings@)),
{
    if convert.start_node(property).is_err() {
        return Err(());
    }
    let start = convert;
    let mut c = convert;
    c.advance();
    let mut text: Option<Arc<String>> = None;
    loop
        invariant
            c.wf(),
            start.offset <= c.offset,
            start@ == convert@,
            reading::read_set(property@, start@, strings_view(strings@)) == read_set_loop(property@, start@, c@, strings_view(strings@), name_view(text)),
            start@.starts(property@),
        decreases c@.data.len(),
    {
        if c.remaining_data_len() == 0 {
            return Err(());
        }
        if c.end_node(property).is_ok() {
            c.advance();
            match text {
                None => {
                    return Err(());
                },
                Some(text) => {
                    return Ok((c.subtract(start), text));
                },
            }
        } else if let Ok((_, val)) = c.meta_string("ref") {
            c.advance();
            text = find_text(val.as_str(), strings);
        } else if let Ok((_, val)) = c.meta_string("value") {
            c.advance();
            text = Some(val);
        } else {
            return Err(());
        }
    }
}


/// What a reading carries, from the debug id and the ignored ranges.
pub open spec fn carry_of(debug_id: usize, ignored: Seq<Range>) -> Carry {
    Carry { debug_id, ignored }
}

/// The properties read so far by a rule reading.
struct PropsExec {
    text: Option<Arc<String>>,
    property: Option<Arc<String>>,
    flag1: Option<bool>,
    flag2: Option<bool>,
    rule: Option<Rule>,
    by: Option<Rule>,
    args: Vec<Rule>,
}

/// The view of an optional rule.
pub open spec fn opt_rule_view(r: Option<Rule>) -> Option<RuleV> {
    match r {
        Some(r) => Some(r@),
        None => None,
    }
}

impl View for PropsExec {
    type V = Props;

    closed spec fn view(&self) -> Props {
        Props {
            text: name_view(self.text),
            property: name_view(self.property),
            flag1: self.flag1,
            flag2: self.flag2,
            rule: opt_rule_view(self.rule),
            by: opt_rule_view(self.by),
            args: rules_view(self.args@),
        }
    }
}

/// The name of the node that describes a kind of rule.
fn kind_node_str(k: Kind) -> (s: &'static str)
    ensures
        s@ == kind_node(k),
{
    match k {
        Kind::Sequence => "sequence",
        Kind::Select => "select",
        Kind::UntilAnyOrWhitespace => "until_any_or_whitespace",
        Kind::UntilAny => "until_any",
        Kind::Tag => "tag",
        Kind::Text => "text",
        Kind::Number => "number",
        Kind::Reference => "reference",
        Kind::SeparatedBy => "separated_by",
        Kind::Repeat => "repeat",
    }
}

/// The first flag that a kind of rule reads.
fn flag1_str(k: Kind) -> (s: Option<&'static str>)
    ensures
        match s {
            Some(t) => flag1_name(k) == Some(t@),
            None => flag1_name(k) is None,
        },
{
    match k {
        Kind::UntilAnyOrWhitespace | Kind::UntilAny => Some("optional"),
        Kind::Tag => Some("not"),
        Kind::Text => Some("allow_empty"),
        Kind::Number => Some("underscore"),
        Kind::SeparatedBy => Some("optional"),
        Kind::Repeat => Some("optional"),
        _ => None,
    }
}

/// The second flag that a kind of rule reads.
fn flag2_str(k: Kind) -> (s: Option<&'static str>)
    ensures
        match s {
            Some(t) => flag2_name(k) == Some(t@),
            None => flag2_name(k) is None,
        },
{
    match k {
        Kind::Tag => Some("inverted"),
        Kind::SeparatedBy => Some("allow_trail"),
        _ => None,
    }
}

/// The set that gives the text of a kind of rule.
fn text_set_str(k: Kind) -> (s: Option<&'static str>)
    ensures
        match s {
            Some(t) => text_set_name(k) == Some(t@),
            None => text_set_name(k) is None,
        },
{
    match k {
        Kind::UntilAnyOrWhitespace | Kind::UntilAny => Some("any_characters"),
        Kind::Tag => Some("text"),
        _ => None,
    }
}

/// Whether a name is the given one, when there is one.
fn is_some_name(n: &str, t: Option<&'static str>) -> (r: bool)
    ensures
        r == match t { Some(t) => t@ == n@, None => false },
{
    match t {
        Some(t) => same_text(t, n),
        None => false,
    }
}

/// The kind of rule whose node has the name, if it is read by properties.
fn kind_of_name(n: &str) -> (r: Option<Kind>)
    ensures
        r == kind_of(n@),
{
    if same_text(n, "sequence") { Some(Kind::Sequence) }
    else if same_text(n, "until_any_or_whitespace") { Some(Kind::UntilAnyOrWhitespace) }
    else if same_text(n, "until_any") { Some(Kind::UntilAny) }
    else if same_text(n, "tag") { Some(Kind::Tag) }
    else if same_text(n, "text") { Some(Kind::Text) }
    else if same_text(n, "number") { Some(Kind::Number) }
    else if same_text(n, "reference") { Some(Kind::Reference) }
    else if same_text(n, "select") { Some(Kind::Select) }
    else if same_text(n, "separated_by") { Some(Kind::SeparatedBy) }
    else if same_text(n, "repeat") { Some(Kind::Repeat) }
    else { None }
}

/// Makes the rule of the properties read, with a new debug id, where no
/// required property is missing.
fn finish(k: Kind, debug_id: &mut usize, p: PropsExec) -> (r: Result<Rule, ()>)
    requires
        make_rule(k, p@, 0) is Ok ==> next_id(carry_of(*old(debug_id), Seq::empty())) is Some,
    ensures
        match make_rule(k, p@, 0) {
            Err(()) => r is Err && *final(debug_id) == *old(debug_id),
            Ok(_) => *final(debug_id) == *old(debug_id) + 1 && (r matches Ok(rule) && make_rule(k, p@, *final(debug_id)) == Ok::<RuleV, ()>(rule@)),
        },
{
    let ghost pv = p@;
    let ready = match k {
        Kind::UntilAnyOrWhitespace | Kind::UntilAny | Kind::Tag | Kind::Reference => p.text.is_some(),
        Kind::SeparatedBy => p.by.is_some() && p.rule.is_some(),
        Kind::Repeat => p.rule.is_some() && p.flag1.is_some(),
        _ => true,
    };
    if !ready {
        return Err(());
    }
    *debug_id = *debug_id + 1;
    let id = *debug_id;
    let PropsExec { text, property, flag1, flag2, rule, by, args } = p;
    let r = match k {
        Kind::Sequence => Rule::Sequence(Sequence { debug_id: id, args }),
        Kind::Select => Rule::Select(Select { debug_id: id, args }),
        Kind::UntilAnyOrWhitespace => Rule::UntilAnyOrWhitespace(UntilAnyOrWhitespace {
            debug_id: id,
            any_characters: text.unwrap(),
            optional: flag1 == Some(true),
            property,
        }),
        Kind::UntilAny => Rule::UntilAny(UntilAny {
            debug_id: id,
            any_characters: text.unwrap(),
            optional: flag1 == Some(true),
            property,
        }),
        Kind::Tag => Rule::Tag(Tag {
            debug_id: id,
            text: text.unwrap(),
            not: flag1 == Some(true),
            inverted: flag2 == Some(true),
            property,
        }),
        Kind::Text => Rule::Text(Text { debug_id: id, allow_empty: flag1 != Some(false), property }),
        Kind::Number => Rule::Number(Number { debug_id: id, property, allow_underscore: flag1 == Some(true) }),
        Kind::Reference => Rule::Node(Node { debug_id: id, name: text.unwrap(), property, index: None }),
        Kind::SeparatedBy => Rule::SeparateBy(Box::new(SeparateBy {
            debug_id: id,
            optional: flag1 != Some(false),
            allow_trail: flag2 != Some(false),
            by: by.unwrap(),
            rule: rule.unwrap(),
        })),
        Kind::Repeat => Rule::Repeat(Box::new(Repeat { debug_id: id, rule: rule.unwrap(), optional: flag1.unwrap() })),
    };
    Ok(r)
}


/// Reads the properties of a rule from `convert` on, where the rule's node
/// started at `start`, up to the end of the node.
fn read_props(
    k: Kind,
    debug_id: &mut usize,
    start: Convert,
    convert: Convert,
    strings: &[(Arc<String>, Arc<String>)],
    ignored: &mut Vec<Range>,
) -> (r: Result<(Range, Rule), ()>)
    requires
        convert.wf(),
        start@.offset <= convert@.offset,
        reading::read_props(k, start@, convert@, strings_view(strings@), no_props(), carry_of(*old(debug_id), old(ignored)@)) is Some,
    ensures
        (rule_res(r), carry_of(*final(debug_id), final(ignored)@)) == reading::read_props(k, start@, convert@, strings_view(strings@), no_props(), carry_of(*old(debug_id), old(ignored)@))->0,
    decreases convert@.data.len() + 1, 0nat,
{
    let ghost sv = strings_view(strings@);
    let ghost goal = reading::read_props(k, start@, convert@, sv, no_props(), carry_of(*debug_id, ignored@));
    let mut c = convert;
    let mut p = PropsExec { text: None, property: None, flag1: None, flag2: None, rule: None, by: None, args: Vec::new() };
    proof {
        lemma_rules_view(p.args@);
        assert(p@ == no_props());
    }
    loop
        invariant
            c.wf(),
            start@.offset <= c@.offset,
            c@.data.len() <= convert@.data.len(),
            sv == strings_view(strings@),
            goal is Some,
            goal == reading::read_props(k, start@, convert@, strings_view(strings@), no_props(), carry_of(*old(debug_id), old(ignored)@)),
            reading::read_props(k, start@, c@, sv, p@, carry_of(*debug_id, ignored@)) == goal,
        decreases c@.data.len(),
    {
        let ghost carry = carry_of(*debug_id, ignored@);
        let ghost c0 = c@;
        let ghost p0 = p@;
        let end_name = kind_node_str(k);
        if c.end_node(end_name).is_ok() {
            c.advance();
            let ghost pv = p@;
            let made = finish(k, debug_id, p);
            return match made {
                Ok(rule) => Ok((c.subtract(start), rule)),
                Err(()) => Err(()),
            };
        }
        proof {
            assert(!c@.ends(kind_node(k)));
            assert(props_step(k, c@, sv, p@, carry) is Some);
        }
        let stepped = read_prop(k, debug_id, &mut c, strings, &mut p, ignored);
        if !stepped {
            let ghost carry1 = carry_of(*debug_id, ignored@);
            proof {
                assert(props_step(k, c0, sv, p0, carry) == Some((None::<(ConvertV, Props)>, carry1)));
                assert(ignore_step(c0, carry1) is Some);
            }
            let r = c.ignore();
            c.update(r);
            ignored.push(r);
            proof {
                assert(ignore_step(c0, carry1) == Some((c@, carry_of(*debug_id, ignored@))));
            }
        }
    }
}

/// Reads the next item if it is a property of the rule: a set, a sub rule,
/// a flag or a name. Tells whether it did.
fn read_prop(
    k: Kind,
    debug_id: &mut usize,
    c: &mut Convert,
    strings: &[(Arc<String>, Arc<String>)],
    p: &mut PropsExec,
    ignored: &mut Vec<Range>,
) -> (stepped: bool)
    requires
        old(c).wf(),
        props_step(k, old(c)@, strings_view(strings@), old(p)@, carry_of(*old(debug_id), old(ignored)@)) is Some,
    ensures
        final(c).wf(),
        old(c)@.offset <= final(c)@.offset,
        match props_step(k, old(c)@, strings_view(strings@), old(p)@, carry_of(*old(debug_id), old(ignored)@))->0 {
            (Some((c2, p2)), carry2) => stepped && final(c)@ == c2 && final(p)@ == p2 && carry_of(*final(debug_id), final(ignored)@) == carry2,
            (None, carry2) => !stepped && final(c)@ == old(c)@ && final(p)@ == old(p)@ && carry_of(*final(debug_id), final(ignored)@) == carry2,
        },
    decreases old(c)@.data.len(), 3nat,
{
    let ghost sv = strings_view(strings@);
    let ghost carry = carry_of(*debug_id, ignored@);
    let items = c.data;
    if items.len() == 0 {
        return false;
    }
    proof {
        assert(c@.data[0].data == items@[0].data@);
        reveal_strlit("by");
        reveal_strlit("rule");
    }
    match &items[0].data {
        MetaData::StartNode(n) => {
            let is_text = is_some_name(n.as_str(), text_set_str(k));
            let is_prop = has_property_kind(k) && same_text(n.as_str(), "property");
            let is_by = is_separated_by(k) && same_text(n.as_str(), "by");
            let is_rule = has_rule_kind(k) && same_text(n.as_str(), "rule");
            if is_text || is_prop {
                if let Ok((r, v)) = read_set(n.as_str(), *c, strings) {
                    c.update(r);
                    if is_text {
                        p.text = Some(v);
                    } else {
                        p.property = Some(v);
                    }
                    return true;
                }
                false
            } else if is_rule || is_by {
                proof {
                    assert(reading::read_rule(carry, n@, c@, sv) is Some);
                }
                let ghost p0 = p@;
                if let Ok((r, rule)) = read_rule(debug_id, n.as_str(), *c, strings, ignored) {
                    let ghost rv = rule@;
                    c.update(r);
                    if is_by {
                        p.by = Some(rule);
                        proof {
                            assert(p@ == Props { by: Some(rv), ..p0 });
                        }
                    } else if is_list(k) {
                        let ghost before = p.args@;
                        p.args.push(rule);
                        proof {
                            reveal_strlit("by");
                            reveal_strlit("rule");
                            assert(n@ == "rule"@);
                            assert("rule"@.len() == 4);
                            assert("by"@.len() == 2);
                            assert(n@ != "by"@);
                            assert(p.args@.subrange(0, p.args@.len() - 1) =~= before);
                            assert(rules_view(p.args@) == rules_view(before).push(rv));
                            assert(p@ == with_rule(k, p0, rv));
                        }
                    } else {
                        p.rule = Some(rule);
                        proof {
                            reveal_strlit("by");
                            reveal_strlit("rule");
                            assert(n@ == "rule"@);
                            assert("rule"@.len() == 4);
                            assert("by"@.len() == 2);
                            assert(n@ != "by"@);
                            assert(p@ == with_rule(k, p0, rv));
                        }
                    }
                    return true;
                }
                false
            } else {
                false
            }
        },
        MetaData::Bool(n, v) => {
            if is_some_name(n.as_str(), flag1_str(k)) {
                p.flag1 = Some(*v);
                c.advance();
                true
            } else if is_some_name(n.as_str(), flag2_str(k)) {
                p.flag2 = Some(*v);
                c.advance();
                true
            } else {
                false
            }
        },
        MetaData::String(n, v) => {
            if is_reference(k) && same_text(n.as_str(), "name") {
                p.text = Some(share(v));
                c.advance();
                true
            } else {
                false
            }
        },
        _ => false,
    }
}

/// Whether a kind of rule has a property set.
fn has_property_kind(k: Kind) -> (r: bool)
    ensures
        r == has_property(k),
{
    match k {
        Kind::UntilAnyOrWhitespace | Kind::UntilAny | Kind::Tag | Kind::Text | Kind::Number | Kind::Reference => true,
        _ => false,
    }
}

/// Whether a kind of rule reads sub rules named `rule`.
fn has_rule_kind(k: Kind) -> (r: bool)
    ensures
        r == has_rule(k),
{
    match k {
        Kind::Sequence | Kind::Select | Kind::SeparatedBy | Kind::Repeat => true,
        _ => false,
    }
}

/// Whether a kind of rule is a rule separated by another.
fn is_separated_by(k: Kind) -> (r: bool)
    ensures
        r == (k == Kind::SeparatedBy),
{
    match k {
        Kind::SeparatedBy => true,
        _ => false,
    }
}

/// Whether a kind of rule is a reference to a node.
fn is_reference(k: Kind) -> (r: bool)
    ensures
        r == (k == Kind::Reference),
{
    match k {
        Kind::Reference => true,
        _ => false,
    }
}

/// Whether a kind of rule holds a list of sub rules.
fn is_list(k: Kind) -> (r: bool)
    ensures
        r == (k == Kind::Sequence || k == Kind::Select),
{
    match k {
        Kind::Sequence | Kind::Select => true,
        _ => false,
    }
}

/// Reads a rule of a kind whose node comes first.
fn read_kind(
    k: Kind,
    debug_id: &mut usize,
    convert: Convert,
    strings: &[(Arc<String>, Arc<String>)],
    ignored: &mut Vec<Range>,
) -> (r: Result<(Range, Rule), ()>)
    requires
        convert.wf(),
        reading::read_kind(k, convert@, strings_view(strings@), carry_of(*old(debug_id), old(ignored)@)) is Some,
    ensures
        (rule_res(r), carry_of(*final(debug_id), final(ignored)@)) == reading::read_kind(k, convert@, strings_view(strings@), carry_of(*old(debug_id), old(ignored)@))->0,
    decreases convert@.data.len() + 1, 1nat,
{
    if convert.start_node(kind_node_str(k)).is_err() {
        return Err(());
    }
    let mut c = convert;
    c.advance();
    read_props(k, debug_id, convert, c, strings, ignored)
}

/// Reads a whitespace rule.
fn read_whitespace(debug_id: &mut usize, convert: Convert) -> (r: Result<(Range, Rule), ()>)
    requires
        convert.wf(),
        reading::read_whitespace(convert@, carry_of(*old(debug_id), Seq::empty())) is Some,
    ensures
        (rule_res(r), carry_of(*final(debug_id), Seq::empty())) == reading::read_whitespace(convert@, carry_of(*old(debug_id), Seq::empty()))->0,
{
    if convert.start_node("whitespace").is_err() {
        return Err(());
    }
    let mut c = convert;
    c.advance();
    let optional = match c.meta_bool("optional") {
        Ok((_, v)) => v,
        Err(()) => {
            return Err(());
        },
    };
    c.advance();
    if c.end_node("whitespace").is_err() {
        return Err(());
    }
    c.advance();
    *debug_id = *debug_id + 1;
    Ok((c.subtract(convert), Rule::Whitespace(Whitespace { debug_id: *debug_id, optional })))
}

/// Reads a rule that holds one sub rule named `rule`: an optional rule
/// (`lines` false) or lines (`lines` true).
fn read_wrapped(
    lines: bool,
    debug_id: &mut usize,
    convert: Convert,
    strings: &[(Arc<String>, Arc<String>)],
    ignored: &mut Vec<Range>,
) -> (r: Result<(Range, Rule), ()>)
    requires
        convert.wf(),
        reading::read_wrapped(lines, convert@, strings_view(strings@), carry_of(*old(debug_id), old(ignored)@)) is Some,
    ensures
        (rule_res(r), carry_of(*final(debug_id), final(ignored)@)) == reading::read_wrapped(lines, convert@, strings_view(strings@), carry_of(*old(debug_id), old(ignored)@))->0,
    decreases convert@.data.len() + 1, 1nat,
{
    let node = if lines { "lines" } else { "optional" };
    if convert.start_node(node).is_err() {
        return Err(());
    }
    let mut c = convert;
    c.advance();
    let (r, rule) = match read_rule(debug_id, "rule", c, strings, ignored) {
        Ok(x) => x,
        Err(()) => {
            return Err(());
        },
    };
    c.update(r);
    if c.end_node(node).is_err() {
        return Err(());
    }
    c.advance();
    *debug_id = *debug_id + 1;
    let made = if lines {
        Rule::Lines(Box::new(Lines { debug_id: *debug_id, rule, indent: false }))
    } else {
        Rule::Optional(Box::new(Optional { debug_id: *debug_id, rule }))
    };
    Ok((c.subtract(convert), made))
}

/// Reads a rule within a node named `property`.
fn read_rule(
    debug_id: &mut usize,
    property: &str,
    convert: Convert,
    strings: &[(Arc<String>, Arc<String>)],
    ignored: &mut Vec<Range>,
) -> (r: Result<(Range, Rule), ()>)
    requires
        convert.wf(),
        reading::read_rule(carry_of(*old(debug_id), old(ignored)@), property@, convert@, strings_view(strings@)) is Some,
    ensures
        (rule_res(r), carry_of(*final(debug_id), final(ignored)@)) == reading::read_rule(carry_of(*old(debug_id), old(ignored)@), property@, convert@, strings_view(strings@))->0,
    decreases convert@.data.len(), 2nat,
{
    if convert.start_node(property).is_err() {
        return Err(());
    }
    let mut c = convert;
    c.advance();
    let items = c.data;
    if items.len() == 0 {
        return Err(());
    }
    proof {
        assert(c@.data[0].data == items@[0].data@);
    }
    let inner = match &items[0].data {
        MetaData::StartNode(n) => match kind_of_name(n.as_str()) {
            Some(k) => read_kind(k, debug_id, c, strings, ignored),
            None => if same_text(n.as_str(), "whitespace") {
                read_whitespace_carried(debug_id, c, ignored)
            } else if same_text(n.as_str(), "optional") {
                read_wrapped(false, debug_id, c, strings, ignored)
            } else if same_text(n.as_str(), "lines") {
                read_wrapped(true, debug_id, c, strings, ignored)
            } else {
                Err(())
            },
        },
        _ => Err(()),
    };
    match inner {
        Ok((r, rule)) => {
            c.update(r);
            if c.end_node(property).is_ok() {
                c.advance();
                Ok((c.subtract(convert), rule))
            } else {
                Err(())
            }
        },
        Err(()) => Err(()),
    }
}

/// Reads a whitespace rule, carrying the ignored ranges along.
fn read_whitespace_carried(debug_id: &mut usize, convert: Convert, ignored: &Vec<Range>) -> (r: Result<(Range, Rule), ()>)
    requires
        convert.wf(),
        reading::read_whitespace(convert@, carry_of(*old(debug_id), ignored@)) is Some,
    ensures
        (rule_res(r), carry_of(*final(debug_id), ignored@)) == reading::read_whitespace(convert@, carry_of(*old(debug_id), ignored@))->0,
{
    let ghost d0 = *debug_id;
    proof {
        assert(reading::read_whitespace(convert@, carry_of(d0, Seq::empty())) is Some);
    }
    read_whitespace(debug_id, convert)
}


/// The number that a numeral reads as, cut to a `usize`; zero for a text
/// that is not a numeral.
fn numeral_as_usize(v: &str) -> (u: usize)
    ensures
        u == numeral_usize(v@),
{
    broadcast use vstd::utf8::encode_utf8_valid_utf8;
    let n = v.as_bytes().len();
    let rt = ReadToken::new(v, 0);
    match rt.number(true) {
        Some(r) => {
            if r.length == n && !rt.number_overflows(true, n) {
                match rt.parse_number(true, n) {
                    Ok((_, u)) => u,
                    Err(_) => 0,
                }
            } else {
                0
            }
        },
        None => 0,
    }
}

/// Reads a node: a name and a rule.
fn read_node(
    convert: Convert,
    strings: &[(Arc<String>, Arc<String>)],
    ignored: &mut Vec<Range>,
) -> (r: Result<(Range, (Arc<String>, Rule)), ()>)
    requires
        convert.wf(),
        reading::read_node(convert@, strings_view(strings@), old(ignored)@) is Some,
    ensures
        (match r {
            Ok((range, (n, rule))) => Ok((range, (n@, rule@))),
            Err(()) => Err::<(Range, (Seq<char>, RuleV)), ()>(()),
        }, final(ignored)@) == reading::read_node(convert@, strings_view(strings@), old(ignored)@)->0,
{
    let ghost sv = strings_view(strings@);
    let ghost goal = reading::read_node(convert@, sv, ignored@);
    if convert.start_node("node").is_err() {
        return Err(());
    }
    let mut c = convert;
    c.advance();
    let mut id: Option<usize> = None;
    let mut name: Option<Arc<String>> = None;
    let mut rule: Option<Rule> = None;
    loop
        invariant
            c.wf(),
            convert@.offset <= c@.offset,
            sv == strings_view(strings@),
            goal is Some,
            goal == reading::read_node(convert@, strings_view(strings@), old(ignored)@),
            goal == read_node_loop(convert@, c@, sv, NodeAcc { id, name: name_view(name), rule: opt_rule_view(rule), ignored: ignored@ }),
        decreases c@.data.len(),
    {
        if c.end_node("node").is_ok() {
            c.advance();
            match (name, rule) {
                (Some(n), Some(r)) => {
                    return Ok((c.subtract(convert), (n, r)));
                },
                _ => {
                    return Err(());
                },
            }
        }
        if let Ok((_, val)) = c.meta_f64("id") {
            id = Some(numeral_as_usize(val.as_str()));
            c.advance();
        } else if let Ok((_, val)) = c.meta_string("name") {
            name = Some(val);
            c.advance();
        } else {
            let base: usize = match id {
                Some(i) => i,
                None => 0,
            };
            let mut d: usize = base * 1000;
            let ghost c0 = c@;
            match read_rule(&mut d, "rule", c, strings, ignored) {
                Ok((r, val)) => {
                    c.update(r);
                    rule = Some(val);
                },
                Err(()) => {
                    proof {
                        assert(ignore_step(c0, carry_of(d, ignored@)) is Some);
                    }
                    let r = c.ignore();
                    c.update(r);
                    ignored.push(r);
                },
            }
        }
    }
}

/// Converts meta data to rules.
/// The ranges of the items that are ignored are appended to `ignored`.
pub fn convert(data: &[Range<MetaData>], ignored: &mut Vec<Range>) -> (r: Result<Syntax, ()>)
    requires
        convert_spec(toks_view(data@), old(ignored)@) is Some,
    ensures
        (match r {
            Ok(s) => Ok(s@),
            Err(()) => Err::<SyntaxV, ()>(()),
        }, final(ignored)@) == convert_spec(toks_view(data@), old(ignored)@)->0,
{
    let ghost goal = convert_spec(toks_view(data@), ignored@);
    let mut strings: Vec<(Arc<String>, Arc<String>)> = Vec::new();
    let mut c = Convert::new(data);
    let ghost start = c@;
    proof {
        assert(strings_view(strings@) =~= Seq::<(Seq<char>, Seq<char>)>::empty());
    }
    loop
        invariant
            c.wf(),
            read_strings(start, Seq::empty()) == read_strings(c@, strings_view(strings@)),
            read_strings(start, Seq::empty()) is Some,
            start == (ConvertV { data: toks_view(data@), offset: 0 }),
            goal == convert_spec(toks_view(data@), old(ignored)@),
            ignored@ == old(ignored)@,
            goal is Some,
        ensures
            c.wf(),
            read_strings(start, Seq::empty()) == Some((c@, strings_view(strings@))),
            goal == convert_spec(toks_view(data@), old(ignored)@),
            ignored@ == old(ignored)@,
            goal is Some,
        decreases c@.data.len(),
    {
        if let Ok((range, val)) = read_string(c) {
            let ghost before = strings@;
            strings.push(val);
            c.update(range);
            proof {
                assert(strings_view(strings@) =~= strings_view(before).push((val.0@, val.1@)));
            }
        } else {
            break;
        }
    }
    let ghost strings_v = strings_view(strings@);
    let mut res = Syntax::new();
    proof {
        assert(res@.names =~= Seq::<Seq<char>>::empty());
        assert(res@.rules =~= Seq::<RuleV>::empty());
    }
    loop
        invariant_except_break
            match read_nodes(c@, strings_v, res@.names, res@.rules, ignored@) {
                None => false,
                Some((Ok((names, rules)), ignored2)) => goal == Some((Ok::<SyntaxV, ()>(SyntaxV { rules: args_updated(rules, names), names }), ignored2)),
                Some((Err(()), ignored2)) => goal == Some((Err::<SyntaxV, ()>(()), ignored2)),
            },
        invariant
            c.wf(),
            strings_v == strings_view(strings@),
            goal == convert_spec(toks_view(data@), old(ignored)@),
            goal is Some,
        ensures
            goal == Some((Ok::<SyntaxV, ()>(SyntaxV { rules: args_updated(res@.rules, res@.names), names: res@.names }), ignored@)),
        decreases c@.data.len(),
    {
        match read_node(c, strings.as_slice(), ignored) {
            Ok((range, (n, rule))) => {
                c.update(range);
                res.push(n, rule);
            },
            Err(()) => {
                if c.remaining_data_len() > 0 {
                    return Err(());
                } else {
                    break;
                }
            },
        }
    }
    update_refs(&mut res);
    Ok(res)
}

} // verus!
