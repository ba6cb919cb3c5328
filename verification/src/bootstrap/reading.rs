//! What converting meta data into rules reads, as mathematical functions.
//!
//! Each reading takes the position in the meta data and what the reading
//! carries along (the debug id counter and the ranges of the items that
//! were ignored), and gives the result with what is carried after it.
//! It is `None` where the conversion would panic or never end.

use vstd::prelude::*;
use crate::range::Range;
use crate::MetaDataV;
use crate::meta_rules::{RuleV, TokenV, UntilAnyV, TextV, NumberV, SelectV, SequenceV, SeparateByV, RepeatV, LinesV, NodeV, OptionalV, Whitespace, args_updated};
use crate::SyntaxV;
use crate::read_token::number_value;

verus! {

/// A position in the meta data: the items left and the offset of the first.
pub struct ConvertV {
    /// The items left.
    pub data: Seq<Range<MetaDataV>>,
    /// The offset of the first item left.
    pub offset: int,
}

/// The strings defined at the start of the meta data: name and text.
pub type Strings = Seq<(Seq<char>, Seq<char>)>;

/// What a reading carries along.
pub struct Carry {
    /// The last debug id given out.
    pub debug_id: usize,
    /// The ranges of the items that were ignored.
    pub ignored: Seq<Range>,
}

/// The outcome of reading a rule.
pub type RuleRead = Option<(Result<(Range, RuleV), ()>, Carry)>;

impl ConvertV {
    /// The position after the first item.
    pub open spec fn next(self) -> ConvertV {
        ConvertV { data: self.data.drop_first(), offset: self.offset + 1 }
    }

    /// Whether the position can move to the end of a range, forward.
    pub open spec fn advances(self, r: Range) -> bool {
        self.offset < r.end() <= self.offset + self.data.len()
    }

    /// The position at the end of a range.
    pub open spec fn update(self, r: Range) -> ConvertV {
        ConvertV { data: self.data.subrange(r.end() - self.offset, self.data.len() as int), offset: r.end() }
    }

    /// The range from `start` up to this position.
    pub open spec fn since(self, start: ConvertV) -> Range {
        Range { offset: start.offset as usize, length: (self.offset - start.offset) as usize, data: () }
    }

    /// Whether the first item starts a node with the name.
    pub open spec fn starts(self, name: Seq<char>) -> bool {
        self.data.len() > 0 && self.data[0].data == MetaDataV::StartNode(name)
    }

    /// Whether the first item ends a node with the name.
    pub open spec fn ends(self, name: Seq<char>) -> bool {
        self.data.len() > 0 && self.data[0].data == MetaDataV::EndNode(name)
    }

    /// The value of the first item, if it is a string property with the name.
    pub open spec fn meta_string(self, name: Seq<char>) -> Option<Seq<char>> {
        if self.data.len() > 0 {
            match self.data[0].data {
                MetaDataV::String(n, v) => if n == name { Some(v) } else { None },
                _ => None,
            }
        } else {
            None
        }
    }

    /// The value of the first item, if it is a number property with the name.
    pub open spec fn meta_f64(self, name: Seq<char>) -> Option<Seq<char>> {
        if self.data.len() > 0 {
            match self.data[0].data {
                MetaDataV::F64(n, v) => if n == name { Some(v) } else { None },
                _ => None,
            }
        } else {
            None
        }
    }

    /// The value of the first item, if it is a bool property with the name.
    pub open spec fn meta_bool(self, name: Seq<char>) -> Option<bool> {
        if self.data.len() > 0 {
            match self.data[0].data {
                MetaDataV::Bool(n, v) => if n == name { Some(v) } else { None },
                _ => None,
            }
        } else {
            None
        }
    }

    /// The number of items that ignoring the next item skips.
    pub open spec fn ignore_len(self) -> Option<int> {
        ignore_loop(self.data, 0, 0)
    }

    /// The range that ignoring the next item skips.
    pub open spec fn ignore_range(self, n: int) -> Range {
        Range { offset: self.offset as usize, length: n as usize, data: () }
    }
}

/// Skipping items from the `i`-th on, `acc` nodes deep: the number of
/// items skipped when the depth is back to zero or the items end.
/// `None` when an end node comes at depth zero.
pub open spec fn ignore_loop(data: Seq<Range<MetaDataV>>, i: int, acc: int) -> Option<int>
    decreases data.len() - i,
{
    if i < 0 || i >= data.len() {
        Some(data.len() as int)
    } else {
        let acc2: Option<int> = match data[i].data {
            MetaDataV::StartNode(_) => Some(acc + 1),
            MetaDataV::EndNode(_) => if acc == 0 { None } else { Some(acc - 1) },
            _ => Some(acc),
        };
        match acc2 {
            None => None,
            Some(a) => if a == 0 { Some(i + 1) } else { ignore_loop(data, i + 1, a) },
        }
    }
}

/// The text of the first string with the name, from the `i`-th on.
pub open spec fn find_string(val: Seq<char>, strings: Strings, i: int) -> Option<Seq<char>>
    decreases strings.len() - i,
{
    if i < 0 || i >= strings.len() {
        None
    } else if strings[i].0 == val {
        Some(strings[i].1)
    } else {
        find_string(val, strings, i + 1)
    }
}

/// Reading the items of a string definition.
pub open spec fn read_string_loop(start: ConvertV, c: ConvertV, name: Option<Seq<char>>, text: Option<Seq<char>>) -> Result<(Range, (Seq<char>, Seq<char>)), ()>
    decreases c.data.len(),
{
    if c.data.len() == 0 {
        Err(())
    } else if let Some(val) = c.meta_string("name"@) {
        read_string_loop(start, c.next(), Some(val), text)
    } else if let Some(val) = c.meta_string("text"@) {
        read_string_loop(start, c.next(), name, Some(val))
    } else if c.ends("string"@) {
        match (name, text) {
            (Some(n), Some(t)) => Ok((c.next().since(start), (n, t))),
            _ => Err(()),
        }
    } else {
        Err(())
    }
}

/// Reading a string definition.
pub open spec fn read_string(c: ConvertV) -> Result<(Range, (Seq<char>, Seq<char>)), ()> {
    if c.starts("string"@) { read_string_loop(c, c.next(), None, None) } else { Err(()) }
}

/// Reading the items of a set.
pub open spec fn read_set_loop(property: Seq<char>, start: ConvertV, c: ConvertV, strings: Strings, text: Option<Seq<char>>) -> Result<(Range, Seq<char>), ()>
    decreases c.data.len(),
{
    if c.data.len() == 0 {
        Err(())
    } else if c.ends(property) {
        match text {
            Some(t) => Ok((c.next().since(start), t)),
            None => Err(()),
        }
    } else if let Some(val) = c.meta_string("ref"@) {
        read_set_loop(property, start, c.next(), strings, find_string(val, strings, 0))
    } else if let Some(val) = c.meta_string("value"@) {
        read_set_loop(property, start, c.next(), strings, Some(val))
    } else {
        Err(())
    }
}

/// Reading a set: a text given by value or by reference to a string.
pub open spec fn read_set(property: Seq<char>, c: ConvertV, strings: Strings) -> Result<(Range, Seq<char>), ()> {
    if c.starts(property) { read_set_loop(property, c, c.next(), strings, None) } else { Err(()) }
}

/// What a reading carries after ignoring the next item, and where it goes on.
/// `None` when ignoring gets stuck or panics.
pub open spec fn ignore_step(c: ConvertV, carry: Carry) -> Option<(ConvertV, Carry)> {
    match c.ignore_len() {
        Some(n) => if n > 0 && c.advances(c.ignore_range(n)) {
            Some((c.update(c.ignore_range(n)), Carry { ignored: carry.ignored.push(c.ignore_range(n)), ..carry }))
        } else {
            None
        },
        None => None,
    }
}

/// A new debug id, or `None` on overflow.
pub open spec fn next_id(carry: Carry) -> Option<Carry> {
    if carry.debug_id == usize::MAX { None } else { Some(Carry { debug_id: (carry.debug_id + 1) as usize, ..carry }) }
}

/// The values of the properties read so far by a rule reading.
pub struct Props {
    /// A text set.
    pub text: Option<Seq<char>>,
    /// The property set.
    pub property: Option<Seq<char>>,
    /// A first flag.
    pub flag1: Option<bool>,
    /// A second flag.
    pub flag2: Option<bool>,
    /// A sub rule.
    pub rule: Option<RuleV>,
    /// A second sub rule.
    pub by: Option<RuleV>,
    /// A list of sub rules.
    pub args: Seq<RuleV>,
}

/// No properties read yet.
pub open spec fn no_props() -> Props {
    Props { text: None, property: None, flag1: None, flag2: None, rule: None, by: None, args: Seq::empty() }
}

/// The kinds of rules that are read from the meta data.
#[derive(Clone, Copy, PartialEq, Eq, Debug)]
pub enum Kind {
    /// A sequence of rules.
    Sequence,
    /// A select of rules.
    Select,
    /// Reading until any character or whitespace.
    UntilAnyOrWhitespace,
    /// Reading until any character.
    UntilAny,
    /// A tag.
    Tag,
    /// A text.
    Text,
    /// A number.
    Number,
    /// A reference to a node.
    Reference,
    /// A rule separated by another rule.
    SeparatedBy,
    /// A repeated rule.
    Repeat,
}

/// The name of the node in the meta data that describes a kind of rule.
pub open spec fn kind_node(k: Kind) -> Seq<char> {
    match k {
        Kind::Sequence => "sequence"@,
        Kind::Select => "select"@,
        Kind::UntilAnyOrWhitespace => "until_any_or_whitespace"@,
        Kind::UntilAny => "until_any"@,
        Kind::Tag => "tag"@,
        Kind::Text => "text"@,
        Kind::Number => "number"@,
        Kind::Reference => "reference"@,
        Kind::SeparatedBy => "separated_by"@,
        Kind::Repeat => "repeat"@,
    }
}

/// The rule made of the properties read, with its debug id,
/// or `Err` when a required property is missing.
pub open spec fn make_rule(k: Kind, p: Props, id: usize) -> Result<RuleV, ()> {
    match k {
        Kind::Sequence => Ok(RuleV::Sequence(SequenceV { debug_id: id, args: p.args })),
        Kind::Select => Ok(RuleV::Select(SelectV { debug_id: id, args: p.args })),
        Kind::UntilAnyOrWhitespace => match p.text {
            Some(any) => Ok(RuleV::UntilAnyOrWhitespace(UntilAnyV { debug_id: id, any_characters: any, optional: p.flag1 == Some(true), property: p.property })),
            None => Err(()),
        },
        Kind::UntilAny => match p.text {
            Some(any) => Ok(RuleV::UntilAny(UntilAnyV { debug_id: id, any_characters: any, optional: p.flag1 == Some(true), property: p.property })),
            None => Err(()),
        },
        Kind::Tag => match p.text {
            Some(text) => Ok(RuleV::Tag(TokenV { debug_id: id, text, not: p.flag1 == Some(true), inverted: p.flag2 == Some(true), property: p.property })),
            None => Err(()),
        },
        Kind::Text => Ok(RuleV::Text(TextV { debug_id: id, allow_empty: p.flag1 != Some(false), property: p.property })),
        Kind::Number => Ok(RuleV::Number(NumberV { debug_id: id, property: p.property, allow_underscore: p.flag1 == Some(true) })),
        Kind::Reference => match p.text {
            Some(name) => Ok(RuleV::Node(NodeV { debug_id: id, name, property: p.property, index: None })),
            None => Err(()),
        },
        Kind::SeparatedBy => match (p.by, p.rule) {
            (Some(by), Some(rule)) => Ok(RuleV::SeparateBy(SeparateByV { debug_id: id, optional: p.flag1 != Some(false), allow_trail: p.flag2 != Some(false), by: Box::new(by), rule: Box::new(rule) })),
            _ => Err(()),
        },
        Kind::Repeat => match (p.rule, p.flag1) {
            (Some(rule), Some(optional)) => Ok(RuleV::Repeat(RepeatV { debug_id: id, rule: Box::new(rule), optional })),
            _ => Err(()),
        },
    }
}

/// The outcome of a rule reading whose properties are read: a new debug
/// id is given out where the rule is made.
pub open spec fn finish_rule(k: Kind, start: ConvertV, c: ConvertV, p: Props, carry: Carry) -> RuleRead {
    match make_rule(k, p, 0) {
        Err(()) => Some((Err(()), carry)),
        Ok(_) => match next_id(carry) {
            None => None,
            Some(carry2) => Some((Ok((c.since(start), make_rule(k, p, carry2.debug_id)->Ok_0)), carry2)),
        },
    }
}

/// The first flag that a kind of rule reads.
pub open spec fn flag1_name(k: Kind) -> Option<Seq<char>> {
    match k {
        Kind::UntilAnyOrWhitespace | Kind::UntilAny => Some("optional"@),
        Kind::Tag => Some("not"@),
        Kind::Text => Some("allow_empty"@),
        Kind::Number => Some("underscore"@),
        Kind::SeparatedBy => Some("optional"@),
        Kind::Repeat => Some("optional"@),
        _ => None,
    }
}

/// The second flag that a kind of rule reads.
pub open spec fn flag2_name(k: Kind) -> Option<Seq<char>> {
    match k {
        Kind::Tag => Some("inverted"@),
        Kind::SeparatedBy => Some("allow_trail"@),
        _ => None,
    }
}

/// The set that gives the text of a kind of rule.
pub open spec fn text_set_name(k: Kind) -> Option<Seq<char>> {
    match k {
        Kind::UntilAnyOrWhitespace | Kind::UntilAny => Some("any_characters"@),
        Kind::Tag => Some("text"@),
        _ => None,
    }
}

/// Whether a kind of rule has a property set.
pub open spec fn has_property(k: Kind) -> bool {
    match k {
        Kind::UntilAnyOrWhitespace | Kind::UntilAny | Kind::Tag | Kind::Text | Kind::Number | Kind::Reference => true,
        _ => false,
    }
}


/// Whether a kind of rule reads sub rules named `rule`.
pub open spec fn has_rule(k: Kind) -> bool {
    match k {
        Kind::Sequence | Kind::Select | Kind::SeparatedBy | Kind::Repeat => true,
        _ => false,
    }
}

/// The properties after reading a sub rule named `rule`: a list kind
/// appends it, others keep it.
pub open spec fn with_rule(k: Kind, p: Props, r: RuleV) -> Props {
    match k {
        Kind::Sequence | Kind::Select => Props { args: p.args.push(r), ..p },
        _ => Props { rule: Some(r), ..p },
    }
}

/// One step of reading the properties of a rule: where the reading goes
/// on, with the properties and what is carried; `None` inside when the
/// next item is not a property of the rule, and `None` outside when the
/// reading panics or gets stuck.
pub open spec fn props_step(k: Kind, c: ConvertV, strings: Strings, p: Props, carry: Carry) -> Option<(Option<(ConvertV, Props)>, Carry)>
    decreases c.data.len(), 3nat,
{
    if c.data.len() == 0 {
        Some((None, carry))
    } else {
        match c.data[0].data {
            MetaDataV::StartNode(n) => if text_set_name(k) == Some(n) || (has_property(k) && n == "property"@) {
                match read_set(n, c, strings) {
                    Ok((r, v)) => if c.advances(r) {
                        let p2 = if text_set_name(k) == Some(n) { Props { text: Some(v), ..p } } else { Props { property: Some(v), ..p } };
                        Some((Some((c.update(r), p2)), carry))
                    } else {
                        None
                    },
                    Err(()) => Some((None, carry)),
                }
            } else if (has_rule(k) && n == "rule"@) || (k == Kind::SeparatedBy && n == "by"@) {
                match read_rule(carry, n, c, strings) {
                    None => None,
                    Some((Ok((r, rule)), carry2)) => if c.advances(r) {
                        let p2 = if n == "by"@ { Props { by: Some(rule), ..p } } else { with_rule(k, p, rule) };
                        Some((Some((c.update(r), p2)), carry2))
                    } else {
                        None
                    },
                    Some((Err(()), carry2)) => Some((None, carry2)),
                }
            } else {
                Some((None, carry))
            },
            MetaDataV::Bool(n, v) => if flag1_name(k) == Some(n) {
                Some((Some((c.next(), Props { flag1: Some(v), ..p })), carry))
            } else if flag2_name(k) == Some(n) {
                Some((Some((c.next(), Props { flag2: Some(v), ..p })), carry))
            } else {
                Some((None, carry))
            },
            MetaDataV::String(n, v) => if k == Kind::Reference && n == "name"@ {
                Some((Some((c.next(), Props { text: Some(v), ..p })), carry))
            } else {
                Some((None, carry))
            },
            _ => Some((None, carry)),
        }
    }
}

/// Reading the properties of a rule from `c` on, where the rule's node
/// started at `start`, up to the end of the node.
pub open spec fn read_props(k: Kind, start: ConvertV, c: ConvertV, strings: Strings, p: Props, carry: Carry) -> RuleRead
    decreases c.data.len() + 1, 0nat,
{
    if c.ends(kind_node(k)) {
        finish_rule(k, start, c.next(), p, carry)
    } else {
        match props_step(k, c, strings, p, carry) {
            None => None,
            Some((Some((c2, p2)), carry2)) => if c2.data.len() < c.data.len() {
                read_props(k, start, c2, strings, p2, carry2)
            } else {
                None
            },
            Some((None, carry2)) => match ignore_step(c, carry2) {
                None => None,
                Some((c2, carry3)) => if c2.data.len() < c.data.len() {
                    read_props(k, start, c2, strings, p, carry3)
                } else {
                    None
                },
            },
        }
    }
}

/// Reading a rule of a kind whose node comes first.
pub open spec fn read_kind(k: Kind, c: ConvertV, strings: Strings, carry: Carry) -> RuleRead
    decreases c.data.len() + 1, 1nat,
{
    if c.starts(kind_node(k)) {
        read_props(k, c, c.next(), strings, no_props(), carry)
    } else {
        Some((Err(()), carry))
    }
}

/// Reading a whitespace rule.
pub open spec fn read_whitespace(c: ConvertV, carry: Carry) -> RuleRead {
    if c.starts("whitespace"@) {
        let c1 = c.next();
        match c1.meta_bool("optional"@) {
            Some(optional) => {
                let c2 = c1.next();
                if c2.ends("whitespace"@) {
                    match next_id(carry) {
                        None => None,
                        Some(carry2) => Some((Ok((c2.next().since(c), RuleV::Whitespace(Whitespace { debug_id: carry2.debug_id, optional }))), carry2)),
                    }
                } else {
                    Some((Err(()), carry))
                }
            },
            None => Some((Err(()), carry)),
        }
    } else {
        Some((Err(()), carry))
    }
}

/// Reading a rule that holds one sub rule named `rule`: an optional rule
/// (`lines` false) or lines (`lines` true).
pub open spec fn read_wrapped(lines: bool, c: ConvertV, strings: Strings, carry: Carry) -> RuleRead
    decreases c.data.len() + 1, 1nat,
{
    let node = if lines { "lines"@ } else { "optional"@ };
    if c.starts(node) {
        let c1 = c.next();
        match read_rule(carry, "rule"@, c1, strings) {
            None => None,
            Some((Ok((r, rule)), carry2)) => if c1.advances(r) {
                let c2 = c1.update(r);
                if c2.ends(node) {
                    match next_id(carry2) {
                        None => None,
                        Some(carry3) => {
                            let made = if lines {
                                RuleV::Lines(LinesV { debug_id: carry3.debug_id, rule: Box::new(rule), indent: false })
                            } else {
                                RuleV::Optional(OptionalV { debug_id: carry3.debug_id, rule: Box::new(rule) })
                            };
                            Some((Ok((c2.next().since(c), made)), carry3))
                        },
                    }
                } else {
                    Some((Err(()), carry2))
                }
            } else {
                None
            },
            Some((Err(()), carry2)) => Some((Err(()), carry2)),
        }
    } else {
        Some((Err(()), carry))
    }
}

/// The kind of rule whose node has the name, if it is read by properties.
pub open spec fn kind_of(n: Seq<char>) -> Option<Kind> {
    if n == "sequence"@ { Some(Kind::Sequence) }
    else if n == "until_any_or_whitespace"@ { Some(Kind::UntilAnyOrWhitespace) }
    else if n == "until_any"@ { Some(Kind::UntilAny) }
    else if n == "tag"@ { Some(Kind::Tag) }
    else if n == "text"@ { Some(Kind::Text) }
    else if n == "number"@ { Some(Kind::Number) }
    else if n == "reference"@ { Some(Kind::Reference) }
    else if n == "select"@ { Some(Kind::Select) }
    else if n == "separated_by"@ { Some(Kind::SeparatedBy) }
    else if n == "repeat"@ { Some(Kind::Repeat) }
    else { None }
}

/// Reading a rule within a node named `property`: the rule's own node
/// comes next, and tells which kind of rule it is.
pub open spec fn read_rule(carry: Carry, property: Seq<char>, c: ConvertV, strings: Strings) -> RuleRead
    decreases c.data.len(), 2nat,
{
    if !c.starts(property) {
        Some((Err(()), carry))
    } else {
        let c1 = c.next();
        let inner: RuleRead = if c1.data.len() == 0 {
            Some((Err(()), carry))
        } else {
            match c1.data[0].data {
                MetaDataV::StartNode(n) => match kind_of(n) {
                    Some(k) => read_kind(k, c1, strings, carry),
                    None => if n == "whitespace"@ {
                        read_whitespace(c1, carry)
                    } else if n == "optional"@ {
                        read_wrapped(false, c1, strings, carry)
                    } else if n == "lines"@ {
                        read_wrapped(true, c1, strings, carry)
                    } else {
                        Some((Err(()), carry))
                    },
                },
                _ => Some((Err(()), carry)),
            }
        };
        match inner {
            None => None,
            Some((Ok((r, rule)), carry2)) => if c1.advances(r) {
                let c2 = c1.update(r);
                if c2.ends(property) {
                    Some((Ok((c2.next().since(c), rule)), carry2))
                } else {
                    Some((Err(()), carry2))
                }
            } else {
                None
            },
            Some((Err(()), carry2)) => Some((Err(()), carry2)),
        }
    }
}

/// The number that a numeral reads as, cut to a `usize` as `f64 as usize`
/// does; zero for a text that is not a numeral or whose exponent does not
/// fit in a `u64`.
pub open spec fn numeral_usize(v: Seq<char>) -> usize {
    let b = vstd::utf8::encode_utf8(v);
    if crate::read_token::number_len(b, true) == Some(b.len() as int) && !crate::read_token::number_overflows(b, true, b.len() as int) {
        match number_value(b, true, b.len() as int) {
            Ok((_, u)) => u,
            Err(_) => 0,
        }
    } else {
        0
    }
}

/// What reading a node keeps from item to item.
pub struct NodeAcc {
    /// The id of the node.
    pub id: Option<usize>,
    /// The name of the node.
    pub name: Option<Seq<char>>,
    /// The rule of the node.
    pub rule: Option<RuleV>,
    /// The ranges of the items that were ignored.
    pub ignored: Seq<Range>,
}

/// Reading the items of a node from `c` on, where the node started at
/// `start`.
pub open spec fn read_node_loop(start: ConvertV, c: ConvertV, strings: Strings, acc: NodeAcc) -> Option<(Result<(Range, (Seq<char>, RuleV)), ()>, Seq<Range>)>
    decreases c.data.len(),
{
    if c.ends("node"@) {
        match (acc.name, acc.rule) {
            (Some(n), Some(r)) => Some((Ok((c.next().since(start), (n, r))), acc.ignored)),
            _ => Some((Err(()), acc.ignored)),
        }
    } else if let Some(v) = c.meta_f64("id"@) {
        read_node_loop(start, c.next(), strings, NodeAcc { id: Some(numeral_usize(v)), ..acc })
    } else if let Some(v) = c.meta_string("name"@) {
        read_node_loop(start, c.next(), strings, NodeAcc { name: Some(v), ..acc })
    } else {
        let id: int = match acc.id { Some(i) => i as int, None => 0 };
        if id * 1000 > usize::MAX {
            None
        } else {
            match read_rule(Carry { debug_id: (id * 1000) as usize, ignored: acc.ignored }, "rule"@, c, strings) {
                None => None,
                Some((Ok((r, rule)), carry)) => if c.advances(r) {
                    read_node_loop(start, c.update(r), strings, NodeAcc { rule: Some(rule), ignored: carry.ignored, ..acc })
                } else {
                    None
                },
                Some((Err(()), carry)) => match ignore_step(c, carry) {
                    None => None,
                    Some((c2, carry2)) => if c2.data.len() < c.data.len() {
                        read_node_loop(start, c2, strings, NodeAcc { ignored: carry2.ignored, ..acc })
                    } else {
                        None
                    },
                },
            }
        }
    }
}

/// Reading a node: a name and a rule.
pub open spec fn read_node(c: ConvertV, strings: Strings, ignored: Seq<Range>) -> Option<(Result<(Range, (Seq<char>, RuleV)), ()>, Seq<Range>)> {
    if c.starts("node"@) {
        read_node_loop(c, c.next(), strings, NodeAcc { id: None, name: None, rule: None, ignored })
    } else {
        Some((Err(()), ignored))
    }
}

/// Reading the string definitions from `c` on.
pub open spec fn read_strings(c: ConvertV, strings: Strings) -> Option<(ConvertV, Strings)>
    decreases c.data.len(),
{
    match read_string(c) {
        Ok((r, s)) => if c.advances(r) { read_strings(c.update(r), strings.push(s)) } else { None },
        Err(()) => Some((c, strings)),
    }
}

/// Reading the nodes from `c` on, after the names and rules read so far.
pub open spec fn read_nodes(c: ConvertV, strings: Strings, names: Seq<Seq<char>>, rules: Seq<RuleV>, ignored: Seq<Range>) -> Option<(Result<(Seq<Seq<char>>, Seq<RuleV>), ()>, Seq<Range>)>
    decreases c.data.len(),
{
    match read_node(c, strings, ignored) {
        None => None,
        Some((Ok((r, (n, rule))), ignored2)) => if c.advances(r) {
            read_nodes(c.update(r), strings, names.push(n), rules.push(rule), ignored2)
        } else {
            None
        },
        Some((Err(()), ignored2)) => if c.data.len() > 0 {
            Some((Err(()), ignored2))
        } else {
            Some((Ok((names, rules)), ignored2))
        },
    }
}

/// Converting meta data to rules, with the ranges of the items ignored
/// appended to `ignored`: the string definitions come first, then the
/// nodes, and the references of the rules are updated to the nodes.
/// `None` where the conversion panics or never ends.
pub open spec fn convert_spec(data: Seq<Range<MetaDataV>>, ignored: Seq<Range>) -> Option<(Result<SyntaxV, ()>, Seq<Range>)> {
    match read_strings(ConvertV { data, offset: 0 }, Seq::empty()) {
        None => None,
        Some((c, strings)) => match read_nodes(c, strings, Seq::empty(), Seq::empty(), ignored) {
            None => None,
            Some((Ok((names, rules)), ignored2)) => Some((Ok(SyntaxV { rules: args_updated(rules, names), names }), ignored2)),
            Some((Err(()), ignored2)) => Some((Err(()), ignored2)),
        },
    }
}

/// A number node whose first item sets `underscore` reads as a number
/// rule that allows underscores exactly where the flag is true.
pub proof fn lemma_number_underscore_flag(c: ConvertV, strings: Strings, carry: Carry, b: bool)
    requires
        c.data.len() >= 3,
        c.data[0].data == MetaDataV::StartNode("number"@),
        c.data[1].data == MetaDataV::Bool("underscore"@, b),
        c.data[2].data == MetaDataV::EndNode("number"@),
        carry.debug_id < usize::MAX,
    ensures
        read_kind(Kind::Number, c, strings, carry) matches Some((Ok((_, rule)), _))
            && rule == RuleV::Number(NumberV { debug_id: (carry.debug_id + 1) as usize, property: None, allow_underscore: b }),
{
    let c1 = c.next();
    let c2 = c1.next();
    assert(c1.data[0] == c.data[1]);
    assert(c2.data[0] == c.data[2]);
    assert(!c1.ends("number"@));
    assert(props_step(Kind::Number, c1, strings, no_props(), carry) == Some((Some((c2, Props { flag1: Some(b), ..no_props() })), carry)));
    assert(c2.ends("number"@));
}

/// A number node with no flag reads as a number rule that does not allow
/// underscores.
pub proof fn lemma_number_without_flag(c: ConvertV, strings: Strings, carry: Carry)
    requires
        c.data.len() >= 2,
        c.data[0].data == MetaDataV::StartNode("number"@),
        c.data[1].data == MetaDataV::EndNode("number"@),
        carry.debug_id < usize::MAX,
    ensures
        read_kind(Kind::Number, c, strings, carry) matches Some((Ok((_, rule)), _))
            && rule == RuleV::Number(NumberV { debug_id: (carry.debug_id + 1) as usize, property: None, allow_underscore: false }),
{
    let c1 = c.next();
    assert(c1.data[0] == c.data[1]);
    assert(c1.ends("number"@));
}

/// A number node with the `underscore` flag and a property reads as a
/// number rule with that property that allows underscores exactly where
/// the flag is true.
pub proof fn lemma_number_underscore_property(c: ConvertV, strings: Strings, carry: Carry, b: bool, name: Seq<char>)
    requires
        c.data.len() >= 6,
        c.data[0].data == MetaDataV::StartNode("number"@),
        c.data[1].data == MetaDataV::Bool("underscore"@, b),
        c.data[2].data == MetaDataV::StartNode("property"@),
        c.data[3].data == MetaDataV::String("value"@, name),
        c.data[4].data == MetaDataV::EndNode("property"@),
        c.data[5].data == MetaDataV::EndNode("number"@),
        0 <= c.offset,
        c.offset + c.data.len() <= usize::MAX,
        carry.debug_id < usize::MAX,
    ensures
        read_kind(Kind::Number, c, strings, carry) matches Some((Ok((_, rule)), _))
            && rule == RuleV::Number(NumberV { debug_id: (carry.debug_id + 1) as usize, property: Some(name), allow_underscore: b }),
{
    let c1 = c.next();
    let c2 = c1.next();
    let c3 = c2.next();
    let c4 = c3.next();
    let c5 = c4.next();
    assert(c1.data[0] == c.data[1]);
    assert(c2.data[0] == c.data[2]);
    assert(c3.data[0] == c.data[3]);
    assert(c4.data[0] == c.data[4]);
    assert(c5.data[0] == c.data[5]);
    assert(!c1.ends("number"@));
    let p1 = Props { flag1: Some(b), ..no_props() };
    assert(props_step(Kind::Number, c1, strings, no_props(), carry) == Some((Some((c2, p1)), carry)));
    assert(!c2.ends("number"@));
    reveal_strlit("value");
    reveal_strlit("ref");
    reveal_strlit("property");
    assert("value"@.len() == 5);
    assert("ref"@.len() == 3);
    assert("property"@.len() == 8);
    assert("value"@ != "ref"@);
    assert("value"@ != "property"@);
    assert(c3.meta_string("ref"@) is None);
    assert(read_set_loop("property"@, c2, c4, strings, Some(name)) == Ok::<(Range, Seq<char>), ()>((c5.since(c2), name)));
    assert(read_set_loop("property"@, c2, c3, strings, None) == Ok::<(Range, Seq<char>), ()>((c5.since(c2), name)));
    assert(read_set("property"@, c2, strings) == Ok::<(Range, Seq<char>), ()>((c5.since(c2), name)));
    let r = c5.since(c2);
    assert(c2.advances(r));
    assert(c2.update(r).data =~= c5.data);
    assert(c2.update(r) == c5);
    let p2 = Props { property: Some(name), ..p1 };
    assert(props_step(Kind::Number, c2, strings, p1, carry) == Some((Some((c5, p2)), carry)));
    assert(c5.ends("number"@));
}

/// A text node whose first item sets `allow_empty` reads as a text rule
/// that allows the empty string exactly where the flag is true.
pub proof fn lemma_text_allow_empty_flag(c: ConvertV, strings: Strings, carry: Carry, b: bool)
    requires
        c.data.len() >= 3,
        c.data[0].data == MetaDataV::StartNode("text"@),
        c.data[1].data == MetaDataV::Bool("allow_empty"@, b),
        c.data[2].data == MetaDataV::EndNode("text"@),
        carry.debug_id < usize::MAX,
    ensures
        read_kind(Kind::Text, c, strings, carry) matches Some((Ok((_, rule)), _))
            && rule == RuleV::Text(TextV { debug_id: (carry.debug_id + 1) as usize, allow_empty: b, property: None }),
{
    let c1 = c.next();
    let c2 = c1.next();
    assert(c1.data[0] == c.data[1]);
    assert(c2.data[0] == c.data[2]);
    assert(!c1.ends("text"@));
    assert(props_step(Kind::Text, c1, strings, no_props(), carry) == Some((Some((c2, Props { flag1: Some(b), ..no_props() })), carry)));
    assert(c2.ends("text"@));
}

} // verus!
