//! Helper methods for syntax rule optimization.

use vstd::prelude::*;
use vstd::string::StringSliceAdditionalSpecFns;
use vstd::utf8::*;
use crate::meta_rules::{Rule, RuleV, Select, FastSelect, Sequence, SeparateBy, Repeat, Lines, Optional, Not, SelectV, FastSelectV, SequenceV, SeparateByV, RepeatV, LinesV, OptionalV, NotV, rules_view, lemma_rules_view};
use crate::{Syntax, MetaDataV};
use crate::range::Range;
use crate::parse_error::ParseErrorV;
use crate::read_token::{Cursor, has_head, head_char, is_prefix, lemma_ascii_head};
use crate::meta_rules::semantics::{Store, Step, ResV, parse_rule, parse_ends, parse_outcome, enough_fuel, store_data, not_step, separate_by_loop, select_loop, fast_select_step, err_update_spec};
use crate::meta_rules::store_alike::{alike, steps_alike, state_after, lemma_parse_alike};
use crate::meta_rules::kept_tokens::lemma_parse_keeps_tokens;
use crate::meta_rules::laws::lemma_fuel_mono;

verus! {

/// The byte that a rule must start with to succeed, if there is one,
/// found within `fuel` steps through references.
/// `None` when the fuel runs out or a reference is out of bounds.
pub open spec fn unique_byte_fuel(rule: RuleV, refs: Seq<RuleV>, fuel: nat) -> Option<Option<u8>>
    decreases fuel,
{
    if fuel == 0 {
        None
    } else {
        let f = (fuel - 1) as nat;
        match rule {
            RuleV::Not(not) => match *not.rule {
                RuleV::Not(r) => unique_byte_fuel(*r.rule, refs, f),
                _ => Some(None),
            },
            RuleV::Text(_) => Some(Some(0x22u8)),
            RuleV::Select(sel) => if sel.args.len() == 1 { unique_byte_fuel(sel.args[0], refs, f) } else { Some(None) },
            RuleV::SeparateBy(sep) => if sep.optional { Some(None) } else { unique_byte_fuel(*sep.rule, refs, f) },
            RuleV::Sequence(seq) => if seq.args.len() == 0 { Some(None) } else { unique_byte_fuel(seq.args[0], refs, f) },
            RuleV::Repeat(rep) => if rep.optional { Some(None) } else { unique_byte_fuel(*rep.rule, refs, f) },
            RuleV::Node(node) => match node.index {
                Some(index) => if index < refs.len() { unique_byte_fuel(refs[index as int], refs, f) } else { None },
                None => Some(None),
            },
            RuleV::Tag(tag) => if tag.not {
                Some(None)
            } else if encode_utf8(tag.text).len() > 0 {
                Some(Some(encode_utf8(tag.text)[0]))
            } else {
                Some(None)
            },
            _ => Some(None),
        }
    }
}

/// Whether looking for the unique byte of a rule ends.
pub open spec fn unique_byte_ends(rule: RuleV, refs: Seq<RuleV>) -> bool {
    exists|fuel: nat| #[trigger] unique_byte_fuel(rule, refs, fuel) is Some
}

/// The unique byte of a rule, where looking for it ends.
pub open spec fn unique_byte_of(rule: RuleV, refs: Seq<RuleV>) -> Option<u8> {
    unique_byte_fuel(rule, refs, choose|fuel: nat| #[trigger] unique_byte_fuel(rule, refs, fuel) is Some)->0
}

/// The unique byte of a rule, or `None` when looking for it does not end.
pub open spec fn unique_byte_opt(rule: RuleV, refs: Seq<RuleV>) -> Option<Option<u8>> {
    if unique_byte_ends(rule, refs) { Some(unique_byte_of(rule, refs)) } else { None }
}

/// A table where no byte selects a sub rule.
pub open spec fn empty_table() -> Seq<u8> {
    Seq::new(256, |i: int| 255u8)
}

/// Filling a table from the `i`-th sub rule on, where `up_to` sub rules
/// are unique so far. `None` when looking for a unique byte does not end.
pub open spec fn table_loop(args: Seq<RuleV>, refs: Seq<RuleV>, i: int, table: Seq<u8>, up_to: int) -> Option<(Seq<u8>, int)>
    decreases args.len() - i,
{
    if i < 0 || i >= args.len() || i >= 255 {
        Some((table, up_to))
    } else {
        match unique_byte_opt(args[i], refs) {
            None => None,
            Some(Some(b)) => if table[b as int] == 255 {
                table_loop(args, refs, i + 1, table.update(b as int, i as u8), i + 1)
            } else {
                Some((table, up_to))
            },
            Some(None) => Some((table, up_to)),
        }
    }
}

/// The table of a select and the number of sub rules it covers.
pub open spec fn select_table(args: Seq<RuleV>, refs: Seq<RuleV>) -> (Seq<u8>, int) {
    table_loop(args, refs, 0, empty_table(), 0)->0
}

/// Whether the optimization of a rule ends.
pub open spec fn optimize_ends(rule: RuleV, refs: Seq<RuleV>) -> bool
    decreases rule,
{
    match rule {
        RuleV::Sequence(seq) => all_optimize_ends(seq.args, refs),
        RuleV::SeparateBy(sep) => optimize_ends(*sep.rule, refs) && optimize_ends(*sep.by, refs),
        RuleV::Repeat(rep) => optimize_ends(*rep.rule, refs),
        RuleV::Lines(l) => optimize_ends(*l.rule, refs),
        RuleV::Optional(o) => optimize_ends(*o.rule, refs),
        RuleV::Not(n) => optimize_ends(*n.rule, refs),
        RuleV::Select(sel) => table_loop(sel.args, refs, 0, empty_table(), 0) is Some && all_optimize_ends(sel.args, refs),
        _ => true,
    }
}

/// Whether the optimization of each of a list of rules ends.
pub open spec fn all_optimize_ends(s: Seq<RuleV>, refs: Seq<RuleV>) -> bool
    decreases s,
{
    if s.len() == 0 {
        true
    } else {
        all_optimize_ends(s.subrange(0, s.len() - 1), refs) && optimize_ends(s[s.len() - 1], refs)
    }
}

/// A rule where each select whose first sub rules start with distinct
/// bytes is replaced by a select with a lookup table.
pub open spec fn optimized(rule: RuleV, refs: Seq<RuleV>) -> RuleV
    decreases rule,
{
    match rule {
        RuleV::Sequence(seq) => RuleV::Sequence(SequenceV { args: all_optimized(seq.args, refs), ..seq }),
        RuleV::SeparateBy(sep) => RuleV::SeparateBy(SeparateByV { rule: Box::new(optimized(*sep.rule, refs)), by: Box::new(optimized(*sep.by, refs)), ..sep }),
        RuleV::Repeat(rep) => RuleV::Repeat(RepeatV { rule: Box::new(optimized(*rep.rule, refs)), ..rep }),
        RuleV::Lines(l) => RuleV::Lines(LinesV { rule: Box::new(optimized(*l.rule, refs)), ..l }),
        RuleV::Optional(o) => RuleV::Optional(OptionalV { rule: Box::new(optimized(*o.rule, refs)), ..o }),
        RuleV::Not(n) => RuleV::Not(NotV { rule: Box::new(optimized(*n.rule, refs)), ..n }),
        RuleV::Select(sel) => {
            let (table, up_to) = select_table(sel.args, refs);
            let all = all_optimized(sel.args, refs);
            if up_to < 2 {
                RuleV::Select(SelectV { args: all, ..sel })
            } else if up_to < sel.args.len() {
                let tail = RuleV::Select(SelectV { args: all.subrange(up_to, all.len() as int), ..sel });
                RuleV::FastSelect(FastSelectV { table, args: all.subrange(0, up_to).push(tail), tail: true, debug_id: sel.debug_id })
            } else {
                RuleV::FastSelect(FastSelectV { table, args: all, tail: false, debug_id: sel.debug_id })
            }
        },
        _ => rule,
    }
}

/// Each of a list of rules optimized.
pub open spec fn all_optimized(s: Seq<RuleV>, refs: Seq<RuleV>) -> Seq<RuleV>
    decreases s,
{
    if s.len() == 0 {
        Seq::empty()
    } else {
        all_optimized(s.subrange(0, s.len() - 1), refs).push(optimized(s[s.len() - 1], refs))
    }
}

/// A list of optimized rules holds each rule optimized, and its
/// optimization ends where that of each rule ends.
pub proof fn lemma_all_optimized(s: Seq<RuleV>, refs: Seq<RuleV>)
    ensures
        all_optimized(s, refs).len() == s.len(),
        forall|i: int| 0 <= i < s.len() ==> #[trigger] all_optimized(s, refs)[i] == optimized(s[i], refs),
        all_optimize_ends(s, refs) <==> forall|i: int| 0 <= i < s.len() ==> #[trigger] optimize_ends(s[i], refs),
    decreases s.len(),
{
    if s.len() > 0 {
        let sub = s.subrange(0, s.len() - 1);
        lemma_all_optimized(sub, refs);
        assert forall|i: int| 0 <= i < s.len() implies #[trigger] all_optimized(s, refs)[i] == optimized(s[i], refs) by {
            if i < s.len() - 1 {
                assert(sub[i] == s[i]);
            }
        }
        assert(all_optimize_ends(s, refs) == (all_optimize_ends(sub, refs) && optimize_ends(s[s.len() - 1], refs)));
        if all_optimize_ends(s, refs) {
            assert forall|i: int| 0 <= i < s.len() implies #[trigger] optimize_ends(s[i], refs) by {
                if i < s.len() - 1 {
                    assert(sub[i] == s[i]);
                    assert(optimize_ends(sub[i], refs));
                }
            }
        }
        if forall|i: int| 0 <= i < s.len() ==> #[trigger] optimize_ends(s[i], refs) {
            assert forall|i: int| 0 <= i < sub.len() implies #[trigger] optimize_ends(sub[i], refs) by {
                assert(sub[i] == s[i]);
                assert(optimize_ends(s[i], refs));
            }
            assert(optimize_ends(s[s.len() - 1], refs));
        }
    }
}

/// Finds a unique byte from rule that determines whether
/// the rule will fail if it does not equals the next byte.
pub fn unique_byte(rule: &Rule, refs: &[Rule]) -> (res: Option<u8>)
    requires
        unique_byte_ends(rule@, rules_view(refs@)),
    ensures
        res == unique_byte_of(rule@, rules_view(refs@)),
{
    let ghost fuel = choose|fuel: nat| #[trigger] unique_byte_fuel(rule@, rules_view(refs@), fuel) is Some;
    unique_byte_with(rule, refs, Ghost(fuel))
}

/// Finds the unique byte of a rule within the given fuel.
fn unique_byte_with(rule: &Rule, refs: &[Rule], Ghost(fuel): Ghost<nat>) -> (res: Option<u8>)
    requires
        unique_byte_fuel(rule@, rules_view(refs@), fuel) is Some,
    ensures
        res == unique_byte_fuel(rule@, rules_view(refs@), fuel)->0,
    decreases fuel,
{
    proof {
        lemma_rules_view(refs@);
    }
    let f = Ghost((fuel - 1) as nat);
    match rule {
        Rule::Not(not) => {
            if let Rule::Not(r) = &not.rule {
                assert(not.rule@ == RuleV::Not(NotV { rule: Box::new(r.rule@), debug_id: r.debug_id }));
                unique_byte_with(&r.rule, refs, f)
            } else {
                None
            }
        },
        Rule::Text(_) => Some(0x22),
        Rule::Select(sel) => {
            proof {
                lemma_rules_view(sel.args@);
            }
            if sel.args.len() == 1 {
                unique_byte_with(&sel.args[0], refs, f)
            } else {
                None
            }
        },
        Rule::SeparateBy(sep) => {
            if sep.optional {
                None
            } else {
                unique_byte_with(&sep.rule, refs, f)
            }
        },
        Rule::Sequence(seq) => {
            proof {
                lemma_rules_view(seq.args@);
            }
            if seq.args.len() == 0 {
                None
            } else {
                unique_byte_with(&seq.args[0], refs, f)
            }
        },
        Rule::Repeat(rep) => {
            if rep.optional {
                None
            } else {
                unique_byte_with(&rep.rule, refs, f)
            }
        },
        Rule::Node(node) => {
            if let Some(index) = node.index {
                unique_byte_with(&refs[index], refs, f)
            } else {
                None
            }
        },
        Rule::Tag(tag) => {
            if tag.not {
                None
            } else {
                let bytes = tag.text.as_str().as_bytes();
                if bytes.len() > 0 {
                    Some(bytes[0])
                } else {
                    None
                }
            }
        },
        _ => None,
    }
}

/// Creates a unique table from select rule.
///
/// Uses a unique byte rule: A unique byte determines which sub-rule to process.
///
/// Returns a table mapping from next byte to sub-rule index,
/// and an index for which the unique byte rule no longer holds.
///
/// Supports only up to 255 sub-rules, but this is sufficient for most cases.
pub fn unique_table_from_select(select: &Select, refs: &[Rule]) -> (res: ([u8; 256], usize))
    requires
        table_loop(rules_view(select.args@), rules_view(refs@), 0, empty_table(), 0) is Some,
    ensures
        res.0@ == select_table(rules_view(select.args@), rules_view(refs@)).0,
        res.1 == select_table(rules_view(select.args@), rules_view(refs@)).1,
        res.1 <= select.args@.len(),
{
    let ghost args = rules_view(select.args@);
    let ghost refs_v = rules_view(refs@);
    proof {
        lemma_rules_view(select.args@);
    }
    let mut data: [u8; 256] = [255u8; 256];
    let mut unique_up_to: usize = 0;
    let mut i: usize = 0;
    proof {
        assert(data@ =~= empty_table());
    }
    while i < select.args.len()
        invariant
            args == rules_view(select.args@),
            refs_v == rules_view(refs@),
            args.len() == select.args@.len(),
            forall|j: int| 0 <= j < args.len() ==> #[trigger] args[j] == select.args@[j]@,
            i <= select.args.len(),
            i <= 255,
            unique_up_to <= i,
            data@.len() == 256,
            table_loop(args, refs_v, i as int, data@, unique_up_to as int) == table_loop(args, refs_v, 0, empty_table(), 0),
            table_loop(args, refs_v, 0, empty_table(), 0) is Some,
        ensures
            table_loop(args, refs_v, 0, empty_table(), 0) == Some((data@, unique_up_to as int)),
        decreases select.args.len() - i,
    {
        if i >= 255 {
            break;
        }
        proof {
            assert(unique_byte_opt(args[i as int], refs_v) is Some);
        }
        if let Some(b) = unique_byte(&select.args[i], refs) {
            if data[b as usize] == 255 {
                let ghost before = data@;
                data[b as usize] = i as u8;
                unique_up_to = i + 1;
                proof {
                    assert(data@ =~= before.update(b as int, i as u8));
                }
            } else {
                break;
            }
        } else {
            break;
        }
        i = i + 1;
    }
    (data, unique_up_to)
}


/// Optimizes syntax rule.
pub fn optimize_rule(rule: &Rule, refs: &[Rule]) -> (r: Rule)
    requires
        optimize_ends(rule@, rules_view(refs@)),
    ensures
        r@ == optimized(rule@, rules_view(refs@)),
    decreases rule,
{
    match rule {
        Rule::Sequence(seq) => {
            proof {
                lemma_rules_view(seq.args@);
                lemma_all_optimized(rules_view(seq.args@), rules_view(refs@));
            }
            let args = optimize_args(&seq.args, 0, seq.args.len(), refs);
            proof {
                assert(all_optimized(rules_view(seq.args@), rules_view(refs@)).subrange(0, seq.args@.len() as int) =~= all_optimized(rules_view(seq.args@), rules_view(refs@)));
            }
            Rule::Sequence(Sequence { args, debug_id: seq.debug_id })
        },
        Rule::SeparateBy(sep) => Rule::SeparateBy(Box::new(SeparateBy {
            rule: optimize_rule(&sep.rule, refs),
            by: optimize_rule(&sep.by, refs),
            optional: sep.optional,
            allow_trail: sep.allow_trail,
            debug_id: sep.debug_id,
        })),
        Rule::Repeat(rep) => Rule::Repeat(Box::new(Repeat {
            rule: optimize_rule(&rep.rule, refs),
            optional: rep.optional,
            debug_id: rep.debug_id,
        })),
        Rule::Lines(l) => Rule::Lines(Box::new(Lines {
            rule: optimize_rule(&l.rule, refs),
            debug_id: l.debug_id,
            indent: l.indent,
        })),
        Rule::Optional(o) => Rule::Optional(Box::new(Optional {
            rule: optimize_rule(&o.rule, refs),
            debug_id: o.debug_id,
        })),
        Rule::Not(n) => Rule::Not(Box::new(Not {
            rule: optimize_rule(&n.rule, refs),
            debug_id: n.debug_id,
        })),
        Rule::Select(sel) => {
            let ghost all = all_optimized(rules_view(sel.args@), rules_view(refs@));
            proof {
                lemma_rules_view(sel.args@);
                lemma_all_optimized(rules_view(sel.args@), rules_view(refs@));
            }
            let (table, unique_up_to) = unique_table_from_select(sel, refs);
            let n = sel.args.len();
            if unique_up_to < 2 {
                // A select over the sub rules after the first is a select
                // again, never a select with a table, so all sub rules stay.
                let args = optimize_args(&sel.args, 0, n, refs);
                proof {
                    assert(all.subrange(0, n as int) =~= all);
                }
                Rule::Select(Select { args, debug_id: sel.debug_id })
            } else {
                let mut args = optimize_args(&sel.args, 0, unique_up_to, refs);
                if unique_up_to < n {
                    let select_args = optimize_args(&sel.args, unique_up_to, n, refs);
                    let ghost head_vec = args@;
                    let tail = Rule::Select(Select { debug_id: sel.debug_id, args: select_args });
                    let ghost tail_v = tail@;
                    args.push(tail);
                    proof {
                        assert(args@.subrange(0, args@.len() - 1) =~= head_vec);
                        assert(rules_view(args@) == rules_view(head_vec).push(tail_v));
                    }
                    Rule::FastSelect(Box::new(FastSelect { table, args, tail: true, debug_id: sel.debug_id }))
                } else {
                    proof {
                        assert(all.subrange(0, n as int) =~= all);
                    }
                    Rule::FastSelect(Box::new(FastSelect { table, args, tail: false, debug_id: sel.debug_id }))
                }
            }
        },
        _ => rule.clone(),
    }
}

/// Optimizes the rules of a list from `lo` up to `hi`.
fn optimize_args(args: &Vec<Rule>, lo: usize, hi: usize, refs: &[Rule]) -> (r: Vec<Rule>)
    requires
        lo <= hi <= args@.len(),
        forall|i: int| lo <= i < hi ==> optimize_ends(#[trigger] rules_view(args@)[i], rules_view(refs@)),
    ensures
        rules_view(r@) == all_optimized(rules_view(args@), rules_view(refs@)).subrange(lo as int, hi as int),
    decreases args,
{
    proof {
        lemma_rules_view(args@);
        lemma_all_optimized(rules_view(args@), rules_view(refs@));
    }
    let mut r: Vec<Rule> = Vec::new();
    let mut i: usize = lo;
    while i < hi
        invariant
            lo <= i <= hi <= args@.len(),
            r@.len() == i - lo,
            forall|j: int| lo <= j < hi ==> optimize_ends(#[trigger] rules_view(args@)[j], rules_view(refs@)),
            forall|j: int| 0 <= j < args@.len() ==> #[trigger] rules_view(args@)[j] == args@[j]@,
            forall|j: int| 0 <= j < r@.len() ==> (#[trigger] r@[j])@ == optimized(args@[lo + j]@, rules_view(refs@)),
        decreases hi - i,
    {
        proof {
            assert(decreases_to!(args => args@[i as int]));
            assert(rules_view(args@)[i as int] == args@[i as int]@);
        }
        let o = optimize_rule(&args[i], refs);
        r.push(o);
        i = i + 1;
    }
    proof {
        lemma_rules_view(r@);
        assert(rules_view(r@) =~= all_optimized(rules_view(args@), rules_view(refs@)).subrange(lo as int, hi as int));
    }
    r
}

impl Syntax {
    /// Optimizes the rules, each with the rules of the syntax as references.
    pub fn optimize(self) -> (r: Syntax)
        requires
            all_optimize_ends(self@.rules, self@.rules),
        ensures
            r@.rules == all_optimized(self@.rules, self@.rules),
            r@.names == self@.names,
    {
        proof {
            lemma_rules_view(self.rules@);
            lemma_all_optimized(self@.rules, self@.rules);
        }
        let n = self.rules.len();
        let rules = optimize_args(&self.rules, 0, n, self.rules.as_slice());
        proof {
            assert(all_optimized(self@.rules, self@.rules).subrange(0, n as int) =~= all_optimized(self@.rules, self@.rules));
        }
        Syntax { rules, names: self.names }
    }
}

/// A well formed character that decodes to `'"'` is the single byte 0x22.
proof fn lemma_quote_byte(b: Seq<u8>)
    requires
        valid_utf8(b),
        has_head(b),
        head_char(b) == '"',
    ensures
        b[0] == 0x22u8,
{
    assert(('"' as u32) == 0x22u32);
    lemma_ascii_head(b);
    let b0 = b[0];
    assert(is_leading_byte_width_1(b0));
    assert(b0 <= 0x7f ==> (b0 & 0x7f) as u32 == b0 as u32) by (bit_vector);
    assert(((b0 as u32) as char) == '"');
    assert(((b0 as u32) as char) as u32 == b0 as u32);
}

/// Reading a rule whose unique byte is `b`, found within `ufuel` steps,
/// fails at text that does not start with `b`, with whatever fuel the
/// reading ends.
pub proof fn lemma_unique_byte_fails(rule: RuleV, refs: Seq<RuleV>, ufuel: nat, c: Cursor, st: usize, s: Store, fuel: nat)
    requires
        c.wf(),
        unique_byte_fuel(rule, refs, ufuel) matches Some(Some(b)) && !(c.bytes.len() > 0 && c.bytes[0] == b),
        parse_rule(rule, refs, c, st, s, fuel) is Some,
    ensures
        parse_rule(rule, refs, c, st, s, fuel).unwrap().0 is Err,
        parse_rule(rule, refs, c, st, s, fuel).unwrap().1.indent == s.indent,
    decreases fuel,
{
    let f = (fuel - 1) as nat;
    let uf = (ufuel - 1) as nat;
    match rule {
        RuleV::Not(n) => {
            if let RuleV::Not(r) = *n.rule {
                assert(parse_rule(*n.rule, refs, c, st, s, f) is Some);
                assert(f > 0);
                lemma_unique_byte_fails(*r.rule, refs, uf, c, st, s, (f - 1) as nat);
                assert(parse_rule(*n.rule, refs, c, st, s, f).unwrap().0 == Ok::<(Range, usize, Option<Range<ParseErrorV>>), Range<ParseErrorV>>((c.start(), st, None)));
                assert(c.can_consume(c.start().length as int));
                assert(parse_rule(rule, refs, c, st, s, fuel) == not_step(n, refs, c, st, s, f));
            }
        },
        RuleV::Text(t) => {
            if has_head(c.bytes) && head_char(c.bytes) == '"' {
                lemma_quote_byte(c.bytes);
            }
        },
        RuleV::Select(sel) => {
            lemma_unique_byte_fails(sel.args[0], refs, uf, c, st, s, f);
            let (res0, s2) = parse_rule(sel.args[0], refs, c, st, s, f).unwrap();
            assert(parse_rule(rule, refs, c, st, s, fuel) == select_loop(sel.args, sel.debug_id, refs, c, st, s2, 1, err_update_spec(Some(res0->Err_0), None), f));
        },
        RuleV::SeparateBy(sep) => {
            assert(parse_rule(rule, refs, c, st, s, fuel) == separate_by_loop(sep, refs, c, c, st, s, true, None, f));
            assert(f > 0);
            lemma_unique_byte_fails(*sep.rule, refs, uf, c, st, s, f);
        },
        RuleV::Sequence(seq) => {
            lemma_unique_byte_fails(seq.args[0], refs, uf, c, st, s, f);
        },
        RuleV::Repeat(rep) => {
            lemma_unique_byte_fails(*rep.rule, refs, uf, c, st, s, f);
        },
        RuleV::Node(node) => {
            let index = node.index.unwrap();
            let (s1, st1) = match node.property {
                Some(prop) => store_data(s, c.start(), MetaDataV::StartNode(prop), st),
                None => (s, st),
            };
            lemma_unique_byte_fails(refs[index as int], refs, uf, c, st1, s1, f);
        },
        RuleV::Tag(t) => {
            let enc = encode_utf8(t.text);
            if is_prefix(enc, c.bytes) {
                assert(c.bytes.subrange(0, enc.len() as int)[0] == c.bytes[0]);
            }
        },
        _ => {},
    }
}

/// The unique byte of a rule decides whether the rule can succeed: at
/// text that does not start with that byte, reading the rule fails.
pub proof fn lemma_unique_byte_decides(rule: RuleV, refs: Seq<RuleV>, c: Cursor, st: usize, s: Store)
    requires
        c.wf(),
        unique_byte_ends(rule, refs),
        unique_byte_of(rule, refs) matches Some(b) && !(c.bytes.len() > 0 && c.bytes[0] == b),
        parse_ends(rule, refs, c, st, s),
    ensures
        parse_outcome(rule, refs, c, st, s).0 is Err,
{
    let uf = choose|fuel: nat| #[trigger] unique_byte_fuel(rule, refs, fuel) is Some;
    let fuel = enough_fuel(rule, refs, c, st, s);
    lemma_unique_byte_fails(rule, refs, uf, c, st, s, fuel);
}

/// Looking for a unique byte with more steps gives the same answer once
/// it ends.
proof fn lemma_unique_byte_fuel_mono(rule: RuleV, refs: Seq<RuleV>, f1: nat, f2: nat)
    requires
        f1 <= f2,
        unique_byte_fuel(rule, refs, f1) is Some,
    ensures
        unique_byte_fuel(rule, refs, f2) == unique_byte_fuel(rule, refs, f1),
    decreases f1,
{
    let g1 = (f1 - 1) as nat;
    let g2 = (f2 - 1) as nat;
    match rule {
        RuleV::Not(n) => {
            if let RuleV::Not(r) = *n.rule {
                lemma_unique_byte_fuel_mono(*r.rule, refs, g1, g2);
            }
        },
        RuleV::Select(sel) => if sel.args.len() == 1 {
            lemma_unique_byte_fuel_mono(sel.args[0], refs, g1, g2);
        },
        RuleV::SeparateBy(sep) => if !sep.optional {
            lemma_unique_byte_fuel_mono(*sep.rule, refs, g1, g2);
        },
        RuleV::Sequence(seq) => if seq.args.len() > 0 {
            lemma_unique_byte_fuel_mono(seq.args[0], refs, g1, g2);
        },
        RuleV::Repeat(rep) => if !rep.optional {
            lemma_unique_byte_fuel_mono(*rep.rule, refs, g1, g2);
        },
        RuleV::Node(node) => match node.index {
            Some(index) => if index < refs.len() {
                lemma_unique_byte_fuel_mono(refs[index as int], refs, g1, g2);
            },
            None => {},
        },
        _ => {},
    }
}

/// The number of sub rules that a table covers is at most the number of
/// sub rules.
proof fn lemma_table_loop_up_to(args: Seq<RuleV>, refs: Seq<RuleV>, i: int, table: Seq<u8>, up_to: int)
    requires
        up_to <= args.len(),
    ensures
        table_loop(args, refs, i, table, up_to) matches Some((_, u)) ==> u <= args.len(),
    decreases args.len() - i,
{
    if 0 <= i < args.len() && i < 255 {
        match unique_byte_opt(args[i], refs) {
            Some(Some(b)) => if table[b as int] == 255 {
                lemma_table_loop_up_to(args, refs, i + 1, table.update(b as int, i as u8), i + 1);
            },
            _ => {},
        }
    }
}

/// Optimizing a rule keeps its unique byte, wherever looking for it ends.
proof fn lemma_optimized_unique_byte_fuel(rule: RuleV, refs: Seq<RuleV>, fuel: nat)
    requires
        unique_byte_fuel(rule, refs, fuel) is Some,
    ensures
        unique_byte_fuel(optimized(rule, refs), refs, fuel) == unique_byte_fuel(rule, refs, fuel),
    decreases fuel,
{
    let f = (fuel - 1) as nat;
    match rule {
        RuleV::Not(n) => {
            if let RuleV::Not(r) = *n.rule {
                lemma_optimized_unique_byte_fuel(*r.rule, refs, f);
                assert(optimized(*n.rule, refs) == RuleV::Not(NotV { rule: Box::new(optimized(*r.rule, refs)), ..r }));
            } else {
                assert(!(optimized(*n.rule, refs) is Not));
            }
        },
        RuleV::Select(sel) => {
            lemma_all_optimized(sel.args, refs);
            if sel.args.len() == 1 {
                lemma_optimized_unique_byte_fuel(sel.args[0], refs, f);
                assert(unique_byte_ends(sel.args[0], refs));
                assert(unique_byte_opt(sel.args[0], refs) is Some);
                lemma_table_loop_up_to(sel.args, refs, 0, empty_table(), 0);
                reveal_with_fuel(table_loop, 2);
                assert(table_loop(sel.args, refs, 0, empty_table(), 0) is Some);
            }
        },
        RuleV::SeparateBy(sep) => if !sep.optional {
            lemma_optimized_unique_byte_fuel(*sep.rule, refs, f);
        },
        RuleV::Sequence(seq) => {
            lemma_all_optimized(seq.args, refs);
            if seq.args.len() > 0 {
                lemma_optimized_unique_byte_fuel(seq.args[0], refs, f);
            }
        },
        RuleV::Repeat(rep) => if !rep.optional {
            lemma_optimized_unique_byte_fuel(*rep.rule, refs, f);
        },
        _ => {},
    }
}

/// Optimizing a rule keeps its unique byte, where looking for it ends.
proof fn lemma_optimized_unique_byte(rule: RuleV, refs: Seq<RuleV>)
    requires
        unique_byte_ends(rule, refs),
    ensures
        unique_byte_opt(optimized(rule, refs), refs) == unique_byte_opt(rule, refs),
{
    let a = optimized(rule, refs);
    let fr = choose|fuel: nat| #[trigger] unique_byte_fuel(rule, refs, fuel) is Some;
    lemma_optimized_unique_byte_fuel(rule, refs, fr);
    assert(unique_byte_fuel(a, refs, fr) is Some);
    assert(unique_byte_ends(a, refs));
    let fa = choose|fuel: nat| #[trigger] unique_byte_fuel(a, refs, fuel) is Some;
    let m: nat = if fa <= fr { fr } else { fa };
    lemma_unique_byte_fuel_mono(rule, refs, fr, m);
    lemma_unique_byte_fuel_mono(a, refs, fa, m);
    lemma_optimized_unique_byte_fuel(rule, refs, m);
}

/// Filling a table from optimized sub rules gives the same table, where
/// filling it ends.
proof fn lemma_optimized_table_loop(args: Seq<RuleV>, refs: Seq<RuleV>, i: int, table: Seq<u8>, up_to: int)
    requires
        table_loop(args, refs, i, table, up_to) is Some,
    ensures
        table_loop(all_optimized(args, refs), refs, i, table, up_to) == table_loop(args, refs, i, table, up_to),
    decreases args.len() - i,
{
    lemma_all_optimized(args, refs);
    let all = all_optimized(args, refs);
    if 0 <= i < args.len() && i < 255 {
        assert(unique_byte_opt(args[i], refs) is Some);
        lemma_optimized_unique_byte(args[i], refs);
        assert(all[i] == optimized(args[i], refs));
        match unique_byte_opt(args[i], refs) {
            Some(Some(b)) => if table[b as int] == 255 {
                lemma_optimized_table_loop(args, refs, i + 1, table.update(b as int, i as u8), i + 1);
            },
            _ => {},
        }
    }
}

/// Optimizing a list of optimized rules changes nothing.
proof fn lemma_all_optimized_twice(s: Seq<RuleV>, refs: Seq<RuleV>)
    requires
        all_optimize_ends(s, refs),
    ensures
        all_optimized(all_optimized(s, refs), refs) == all_optimized(s, refs),
    decreases s,
{
    lemma_all_optimized(s, refs);
    let once = all_optimized(s, refs);
    lemma_all_optimized(once, refs);
    assert forall|i: int| 0 <= i < s.len() implies #[trigger] all_optimized(once, refs)[i] == once[i] by {
        assert(optimize_ends(s[i], refs));
        lemma_optimized_twice(s[i], refs);
    }
    assert(all_optimized(once, refs) =~= once);
}

/// Optimizing an optimized rule changes nothing, where optimizing ends.
pub proof fn lemma_optimized_twice(rule: RuleV, refs: Seq<RuleV>)
    requires
        optimize_ends(rule, refs),
    ensures
        optimized(optimized(rule, refs), refs) == optimized(rule, refs),
    decreases rule,
{
    match rule {
        RuleV::Sequence(seq) => lemma_all_optimized_twice(seq.args, refs),
        RuleV::SeparateBy(sep) => {
            lemma_optimized_twice(*sep.rule, refs);
            lemma_optimized_twice(*sep.by, refs);
        },
        RuleV::Repeat(rep) => lemma_optimized_twice(*rep.rule, refs),
        RuleV::Lines(l) => lemma_optimized_twice(*l.rule, refs),
        RuleV::Optional(o) => lemma_optimized_twice(*o.rule, refs),
        RuleV::Not(n) => lemma_optimized_twice(*n.rule, refs),
        RuleV::Select(sel) => {
            lemma_optimized_table_loop(sel.args, refs, 0, empty_table(), 0);
            lemma_all_optimized_twice(sel.args, refs);
        },
        _ => {},
    }
}

/// What a table filled from the first `i` sub rules holds: the unique
/// byte of each of them leads to it, and every byte leads to no sub rule
/// or to one of them whose unique byte it is.
pub open spec fn table_inv(args: Seq<RuleV>, refs: Seq<RuleV>, t: Seq<u8>, i: int) -> bool {
    &&& t.len() == 256
    &&& 0 <= i <= 255
    &&& i <= args.len()
    &&& forall|j: int| 0 <= j < i ==> (#[trigger] unique_byte_opt(args[j], refs) matches Some(Some(b)) && t[b as int] == j)
    &&& forall|x: int| 0 <= x < 256 ==> (#[trigger] t[x] == 255 || (t[x] < i && unique_byte_opt(args[t[x] as int], refs) == Some(Some(x as u8))))
}

/// Filling a table keeps what it holds.
proof fn lemma_table_loop_inv(args: Seq<RuleV>, refs: Seq<RuleV>, i: int, t: Seq<u8>)
    requires
        table_inv(args, refs, t, i),
    ensures
        table_loop(args, refs, i, t, i) matches Some((t2, u)) ==> table_inv(args, refs, t2, u),
    decreases args.len() - i,
{
    if 0 <= i < args.len() && i < 255 {
        match unique_byte_opt(args[i], refs) {
            Some(Some(b)) => if t[b as int] == 255 {
                let t2 = t.update(b as int, i as u8);
                assert forall|j: int| 0 <= j < i + 1 implies (#[trigger] unique_byte_opt(args[j], refs) matches Some(Some(bj)) && t2[bj as int] == j) by {
                    if j < i {
                        if let Some(Some(bj)) = unique_byte_opt(args[j], refs) {
                            assert(t[bj as int] == j);
                            assert(bj != b);
                        }
                    }
                }
                assert forall|x: int| 0 <= x < 256 implies (#[trigger] t2[x] == 255 || (t2[x] < i + 1 && unique_byte_opt(args[t2[x] as int], refs) == Some(Some(x as u8)))) by {
                    if x == b as int {
                        assert(t2[x] == i as u8);
                    } else {
                        assert(t2[x] == t[x]);
                    }
                }
                lemma_table_loop_inv(args, refs, i + 1, t2);
            },
            _ => {},
        }
    }
}

/// The table of a select holds what a filled table holds.
pub proof fn lemma_select_table_inv(args: Seq<RuleV>, refs: Seq<RuleV>)
    ensures
        table_loop(args, refs, 0, empty_table(), 0) matches Some((t, u)) ==> table_inv(args, refs, t, u),
{
    assert forall|x: int| 0 <= x < 256 implies (#[trigger] empty_table()[x] == 255 || (empty_table()[x] < 0 && unique_byte_opt(args[empty_table()[x] as int], refs) == Some(Some(x as u8)))) by {}
    lemma_table_loop_inv(args, refs, 0, empty_table());
}

/// The store and the deepest error after sub rules from the `i`-th up to
/// the `k`-th fail in turn.
pub open spec fn after_failures(args: Seq<RuleV>, refs: Seq<RuleV>, c: Cursor, st: usize, s: Store, opt_error: Option<Range<ParseErrorV>>, i: int, k: int, fuel: nat) -> (Store, Option<Range<ParseErrorV>>)
    decreases k - i,
{
    if i >= k || i < 0 || i >= args.len() {
        (s, opt_error)
    } else {
        match parse_rule(args[i], refs, c, st, s, fuel) {
            Some((Err(e), s2)) => after_failures(args, refs, c, st, s2, err_update_spec(Some(e), opt_error), i + 1, k, fuel),
            _ => (s, opt_error),
        }
    }
}

/// Whether text at `c` does not start with the unique byte of a rule.
pub open spec fn byte_rules_out(rule: RuleV, refs: Seq<RuleV>, c: Cursor) -> bool {
    unique_byte_opt(rule, refs) matches Some(Some(b)) && !(c.bytes.len() > 0 && c.bytes[0] == b)
}

/// A select goes past sub rules whose unique bytes the text does not
/// start with, and the store it goes on with agrees with `s0` up to the
/// state.
proof fn lemma_select_skips(args: Seq<RuleV>, debug_id: usize, refs: Seq<RuleV>, c: Cursor, st: usize, s0: Store, s: Store, opt_error: Option<Range<ParseErrorV>>, i: int, k: int, fuel: nat)
    requires
        c.wf(),
        0 <= i <= k <= args.len(),
        alike(s0, s, st),
        forall|j: int| i <= j < k ==> #[trigger] byte_rules_out(args[j], refs, c),
        select_loop(args, debug_id, refs, c, st, s, i, opt_error, fuel) is Some,
    ensures
        select_loop(args, debug_id, refs, c, st, s, i, opt_error, fuel) == select_loop(args, debug_id, refs, c, st, after_failures(args, refs, c, st, s, opt_error, i, k, fuel).0, k, after_failures(args, refs, c, st, s, opt_error, i, k, fuel).1, fuel),
        alike(s0, after_failures(args, refs, c, st, s, opt_error, i, k, fuel).0, st),
    decreases k - i,
{
    if i < k {
        assert(byte_rules_out(args[i], refs, c));
        let uf = choose|fuel: nat| #[trigger] unique_byte_fuel(args[i], refs, fuel) is Some;
        lemma_unique_byte_fails(args[i], refs, uf, c, st, s, fuel);
        lemma_parse_keeps_tokens(args[i], refs, c, st, s, fuel);
        match parse_rule(args[i], refs, c, st, s, fuel) {
            Some((Err(e), s2)) => {
                assert(s2.tokens.subrange(0, st as int) == s.tokens.subrange(0, st as int));
                lemma_select_skips(args, debug_id, refs, c, st, s0, s2, err_update_spec(Some(e), opt_error), i + 1, k, fuel);
            },
            _ => {},
        }
    }
}

/// Whether two results both succeed with the same range and state, or
/// both fail.
pub open spec fn same_success(a: ResV, b: ResV) -> bool {
    match (a, b) {
        (Ok((r1, st1, _)), Ok((r2, st2, _))) => r1 == r2 && st1 == st2,
        (Err(_), Err(_)) => true,
        _ => false,
    }
}

/// Trying the sub rules of a select from the `off + i`-th on reads as
/// trying those of a select of the sub rules from the `off`-th on, from
/// the `i`-th on, with stores that agree up to the state: both succeed
/// with the same range and state, or both fail, and the stores they leave
/// agree up to the state they end at.
proof fn lemma_select_shift(args: Seq<RuleV>, debug_id: usize, refs: Seq<RuleV>, c: Cursor, st: usize, sf: Store, ss: Store, off: int, i: int, optf: Option<Range<ParseErrorV>>, opts: Option<Range<ParseErrorV>>, ff: nat, fs: nat)
    requires
        alike(sf, ss, st),
        0 <= off <= args.len(),
        0 <= i,
        select_loop(args.subrange(off, args.len() as int), debug_id, refs, c, st, sf, i, optf, ff) is Some,
        select_loop(args, debug_id, refs, c, st, ss, off + i, opts, fs) is Some,
    ensures
        ({
            let (ra, sa) = select_loop(args.subrange(off, args.len() as int), debug_id, refs, c, st, sf, i, optf, ff).unwrap();
            let (rb, sb) = select_loop(args, debug_id, refs, c, st, ss, off + i, opts, fs).unwrap();
            same_success(ra, rb) && alike(sa, sb, state_after(ra, st))
        }),
    decreases args.len() - off - i,
{
    let tail = args.subrange(off, args.len() as int);
    if i < tail.len() {
        assert(tail[i] == args[off + i]);
        lemma_parse_alike(args[off + i], refs, c, st, sf, ss, fs);
        if fs <= ff {
            lemma_fuel_mono(args[off + i], refs, c, st, sf, fs, ff);
        } else {
            lemma_fuel_mono(args[off + i], refs, c, st, sf, ff, fs);
        }
        match (parse_rule(args[off + i], refs, c, st, sf, ff), parse_rule(args[off + i], refs, c, st, ss, fs)) {
            (Some((Err(e1), sf2)), Some((Err(e2), ss2))) => {
                lemma_select_shift(args, debug_id, refs, c, st, sf2, ss2, off, i + 1, err_update_spec(Some(e1), optf), err_update_spec(Some(e2), opts), ff, fs);
            },
            _ => {},
        }
    }
}

/// The select with a lookup table that a select of unoptimized sub rules
/// becomes: the sub rules with distinct first bytes, and, where others
/// follow, a select of those last.
pub open spec fn fast_select_of(sel: SelectV, refs: Seq<RuleV>) -> FastSelectV {
    let (table, up_to) = select_table(sel.args, refs);
    if up_to < sel.args.len() {
        let tail = RuleV::Select(SelectV { args: sel.args.subrange(up_to, sel.args.len() as int), ..sel });
        FastSelectV { table, args: sel.args.subrange(0, up_to).push(tail), tail: true, debug_id: sel.debug_id }
    } else {
        FastSelectV { table, args: sel.args, tail: false, debug_id: sel.debug_id }
    }
}

/// What a select with a lookup table gives after trying the select of its
/// last sub rules, where `opt_error` is the error of the sub rule it
/// tried first, if any.
pub open spec fn after_tail(fr: Step, c: Cursor, opt_error: Option<Range<ParseErrorV>>) -> Step {
    match fr {
        None => None,
        Some((Ok((range, st3, err)), s3)) => Some((Ok((c.peek(range.length as int), st3, err_update_spec(err, opt_error))), s3)),
        Some((Err(e), s3)) => Some((Err(crate::meta_rules::semantics::ret_err_spec(e, opt_error)), s3)),
    }
}

/// Trying the select of the last sub rules reads as a select that has
/// come to them.
proof fn lemma_tail_reads_alike(sel: SelectV, refs: Seq<RuleV>, c: Cursor, st: usize, sf: Store, ss: Store, opt_f: Option<Range<ParseErrorV>>, opt_s: Option<Range<ParseErrorV>>, up_to: int, g1: nat, g2: nat)
    requires
        c.wf(),
        alike(sf, ss, st),
        0 <= up_to < sel.args.len(),
        parse_rule(RuleV::Select(SelectV { args: sel.args.subrange(up_to, sel.args.len() as int), ..sel }), refs, c, st, sf, g2) is Some,
        select_loop(sel.args, sel.debug_id, refs, c, st, ss, up_to, opt_s, g1) is Some,
    ensures
        ({
            let (ra, sa) = after_tail(parse_rule(RuleV::Select(SelectV { args: sel.args.subrange(up_to, sel.args.len() as int), ..sel }), refs, c, st, sf, g2), c, opt_f).unwrap();
            let (rb, sb) = select_loop(sel.args, sel.debug_id, refs, c, st, ss, up_to, opt_s, g1).unwrap();
            same_success(ra, rb) && alike(sa, sb, state_after(ra, st))
        }),
{
    let tail_args = sel.args.subrange(up_to, sel.args.len() as int);
    let gt = (g2 - 1) as nat;
    let fr = parse_rule(RuleV::Select(SelectV { args: tail_args, ..sel }), refs, c, st, sf, g2);
    assert(fr == select_loop(tail_args, sel.debug_id, refs, c, st, sf, 0, None, gt));
    lemma_select_shift(sel.args, sel.debug_id, refs, c, st, sf, ss, up_to, 0, None, opt_s, gt, g1);
    crate::meta_rules::laws::lemma_select_loop_starts(tail_args, sel.debug_id, refs, c, st, sf, 0, None, gt);
    match fr {
        Some((Ok((r, st3, _)), s3)) => {
            assert(crate::meta_rules::laws::ok_starts_at(select_loop(tail_args, sel.debug_id, refs, c, st, sf, 0, None, gt), c.offset));
            assert(r.offset == c.offset);
            assert(c.peek(r.length as int).offset == r.offset);
            assert(c.peek(r.length as int).length == r.length);
            assert(c.peek(r.length as int).data == r.data);
            assert(c.peek(r.length as int) == r);
        },
        _ => {},
    }
}

/// A select reads with the lookup table that its sub rules' distinct
/// first bytes give as it reads trying each sub rule in turn: both
/// succeed with the same range and state, or both fail, and they leave
/// stores that agree up to the state they end at. Only the errors they
/// report may differ. Where some sub rules are left to a select at the
/// end, this holds where text is left: at the end of the text, the lookup
/// table fails at once.
pub proof fn lemma_fast_select_reads_alike(sel: SelectV, refs: Seq<RuleV>, c: Cursor, st: usize, s: Store, f1: nat, f2: nat)
    requires
        c.wf(),
        st <= s.tokens.len(),
        table_loop(sel.args, refs, 0, empty_table(), 0) is Some,
        fast_select_of(sel, refs).tail ==> c.bytes.len() > 0,
        parse_rule(RuleV::Select(sel), refs, c, st, s, f1) is Some,
        parse_rule(RuleV::FastSelect(fast_select_of(sel, refs)), refs, c, st, s, f2) is Some,
    ensures
        ({
            let (ra, sa) = parse_rule(RuleV::FastSelect(fast_select_of(sel, refs)), refs, c, st, s, f2).unwrap();
            let (rb, sb) = parse_rule(RuleV::Select(sel), refs, c, st, s, f1).unwrap();
            same_success(ra, rb) && alike(sa, sb, state_after(ra, st))
        }),
{
    let args = sel.args;
    let (table, up_to) = select_table(args, refs);
    let fs = fast_select_of(sel, refs);
    let g1 = (f1 - 1) as nat;
    let g2 = (f2 - 1) as nat;
    let n = args.len() as int;
    lemma_select_table_inv(args, refs);
    assert(s.tokens.subrange(0, st as int) =~= s.tokens.subrange(0, st as int));
    assert(alike(s, s, st));
    assert(parse_rule(RuleV::Select(sel), refs, c, st, s, f1) == select_loop(args, sel.debug_id, refs, c, st, s, 0, None, g1));
    assert(parse_rule(RuleV::FastSelect(fs), refs, c, st, s, f2) == fast_select_step(fs, refs, c, st, s, g2));
    let tail_sel = SelectV { args: args.subrange(up_to, n), ..sel };
    if up_to < n {
        assert(fs.args[fs.args.len() - 1] == RuleV::Select(tail_sel));
        assert forall|j: int| 0 <= j < up_to implies fs.args[j] == args[j] by {}
    }
    let ind: int = if c.bytes.len() > 0 { table[c.bytes[0] as int] as int } else { 255 };
    let skip_to: int = if ind == 255 { up_to } else { ind };
    assert forall|j: int| 0 <= j < skip_to implies #[trigger] byte_rules_out(args[j], refs, c) by {
        if let Some(Some(b)) = unique_byte_opt(args[j], refs) {
            assert(table[b as int] == j);
        }
    }
    lemma_select_skips(args, sel.debug_id, refs, c, st, s, s, None, 0, skip_to, g1);
    let (sk, ok) = after_failures(args, refs, c, st, s, None, 0, skip_to, g1);
    if ind == 255 {
        if up_to < n {
            assert(fast_select_step(fs, refs, c, st, s, g2) == after_tail(parse_rule(RuleV::Select(tail_sel), refs, c, st, s, g2), c, None));
            lemma_tail_reads_alike(sel, refs, c, st, s, sk, None, ok, up_to, g1, g2);
        }
    } else {
        assert(ind < up_to);
        lemma_parse_alike(args[ind], refs, c, st, s, sk, g1);
        if g1 <= g2 {
            lemma_fuel_mono(args[ind], refs, c, st, s, g1, g2);
        } else {
            lemma_fuel_mono(args[ind], refs, c, st, s, g2, g1);
        }
        match (parse_rule(args[ind], refs, c, st, s, g1), parse_rule(args[ind], refs, c, st, sk, g1)) {
            (Some((Err(e), s2)), Some((_, sk2))) => {
                assert forall|j: int| ind + 1 <= j < up_to implies #[trigger] byte_rules_out(args[j], refs, c) by {
                    if let Some(Some(b)) = unique_byte_opt(args[j], refs) {
                        assert(table[b as int] == j);
                    }
                }
                lemma_select_skips(args, sel.debug_id, refs, c, st, s2, sk2, err_update_spec(Some(e), ok), ind + 1, up_to, g1);
                let (sk3, ok3) = after_failures(args, refs, c, st, sk2, err_update_spec(Some(e), ok), ind + 1, up_to, g1);
                if up_to < n {
                    assert(fast_select_step(fs, refs, c, st, s, g2) == after_tail(parse_rule(RuleV::Select(tail_sel), refs, c, st, s2, g2), c, Some(e)));
                    lemma_tail_reads_alike(sel, refs, c, st, s2, sk3, Some(e), ok3, up_to, g1, g2);
                }
            },
            _ => {},
        }
    }
}

} // verus!
