//! Reading does not look at the tokens past the tokenizer state: two
//! stores that agree up to the state read alike.

use vstd::prelude::*;
use crate::range::Range;
use crate::read_token::{Cursor, is_prefix};
use crate::parse_error::ParseErrorV;
use crate::tokenizer::stored;
use crate::MetaDataV;
use super::{RuleV, SeparateByV, RepeatV, LinesV, FastSelectV, NodeV, IndentSettings};
use super::semantics::{Store, Step, ResV, LinesAcc, LineStart, parse_rule, select_loop, fast_select_step, sequence_loop, separate_by_loop, repeat_loop, node_step, line_item, lines_loop, line_scan, skip_indent, align_indent, ends_with_newline, can_update, store_data, err_update_spec, end_of};

verus! {

/// Whether two stores have the same indentation, hold at least `st`
/// tokens each, and agree on the first `st` tokens.
pub open spec fn alike(s: Store, s2: Store, st: usize) -> bool {
    &&& s.indent == s2.indent
    &&& st <= s.tokens.len()
    &&& st <= s2.tokens.len()
    &&& s.tokens.subrange(0, st as int) == s2.tokens.subrange(0, st as int)
}

/// The state after a result: where a success ends, or `st` where it fails.
pub open spec fn state_after(r: ResV, st: usize) -> usize {
    match r {
        Ok((_, st2, _)) => st2,
        Err(_) => st,
    }
}

/// Whether two steps both end or both do not, and where they end, give
/// the same result and alike stores at the state after it.
pub open spec fn steps_alike(a: Step, b: Step, st: usize) -> bool {
    match (a, b) {
        (None, None) => true,
        (Some((ra, sa)), Some((rb, sb))) => ra == rb && alike(sa, sb, state_after(ra, st)),
        _ => false,
    }
}

/// Stores alike up to a state are alike up to an earlier one.
proof fn lemma_alike_weaken(a: Store, b: Store, hi: usize, lo: usize)
    requires
        alike(a, b, hi),
        lo <= hi,
    ensures
        alike(a, b, lo),
{
    assert(a.tokens.subrange(0, lo as int) =~= a.tokens.subrange(0, hi as int).subrange(0, lo as int));
    assert(b.tokens.subrange(0, lo as int) =~= b.tokens.subrange(0, hi as int).subrange(0, lo as int));
}

/// Steps alike after a state are alike after an earlier one.
proof fn lemma_steps_weaken(a: Step, b: Step, hi: usize, lo: usize)
    requires
        steps_alike(a, b, hi),
        lo <= hi,
    ensures
        steps_alike(a, b, lo),
{
    match (a, b) {
        (Some((Err(_), sa)), Some((_, sb))) => lemma_alike_weaken(sa, sb, hi, lo),
        _ => {},
    }
}

/// Storing a token in two lists that agree up to the state gives the
/// same list and state.
proof fn lemma_stored_alike(t1: Seq<Range<MetaDataV>>, t2: Seq<Range<MetaDataV>>, st: usize)
    requires
        st <= t1.len(),
        st <= t2.len(),
        t1.subrange(0, st as int) == t2.subrange(0, st as int),
    ensures
        forall|d: Range<MetaDataV>| #[trigger] stored(t1, d, st) == stored(t2, d, st) && stored(t1, d, st).1 as int <= stored(t1, d, st).0.len(),
{
    assert(t1 =~= t1.subrange(0, st as int) || st < t1.len());
    assert(t2 =~= t2.subrange(0, st as int) || st < t2.len());
    let k1 = if (st as int) < t1.len() { t1.subrange(0, st as int) } else { t1 };
    let k2 = if (st as int) < t2.len() { t2.subrange(0, st as int) } else { t2 };
    assert(k1 =~= k2);
}

/// Reading a rule with two stores that agree up to the state reads alike.
pub proof fn lemma_parse_alike(rule: RuleV, refs: Seq<RuleV>, c: Cursor, st: usize, s: Store, s2: Store, fuel: nat)
    requires
        alike(s, s2, st),
    ensures
        steps_alike(parse_rule(rule, refs, c, st, s, fuel), parse_rule(rule, refs, c, st, s2, fuel), st),
    decreases fuel, 0nat,
{
    if fuel > 0 {
        let f = (fuel - 1) as nat;
        lemma_stored_alike(s.tokens, s2.tokens, st);
        match rule {
            RuleV::Select(sel) => lemma_select_alike(sel.args, sel.debug_id, refs, c, st, s, s2, 0, None, f),
            RuleV::FastSelect(fs) => lemma_fast_select_alike(fs, refs, c, st, s, s2, f),
            RuleV::Sequence(seq) => lemma_sequence_alike(seq.args, refs, c, c, st, s, s2, 0, None, f),
            RuleV::SeparateBy(sep) => lemma_separate_by_alike(sep, refs, c, c, st, s, s2, true, None, f),
            RuleV::Repeat(rep) => lemma_repeat_alike(rep, refs, c, c, st, s, s2, true, None, f),
            RuleV::Lines(l) => lemma_lines_alike(l, refs, c, c, true, LinesAcc { state: st, opt_error: None, first: true, store: s }, LinesAcc { state: st, opt_error: None, first: true, store: s2 }, f),
            RuleV::Node(n) => lemma_node_alike(n, refs, c, st, s, s2, f),
            RuleV::Optional(o) => {
                lemma_parse_alike(*o.rule, refs, c, st, s, s2, f);
            },
            RuleV::Not(n) => {
                lemma_parse_alike(*n.rule, refs, c, st, s, s2, f);
                super::kept_tokens::lemma_parse_keeps_tokens(*n.rule, refs, c, st, s, f);
                match (parse_rule(*n.rule, refs, c, st, s, f), parse_rule(*n.rule, refs, c, st, s2, f)) {
                    (Some((Ok((_, st2, _)), sa)), Some((_, sb))) => lemma_alike_weaken(sa, sb, st2, st),
                    _ => {},
                }
            },
            _ => {},
        }
    }
}

proof fn lemma_select_alike(args: Seq<RuleV>, debug_id: usize, refs: Seq<RuleV>, c: Cursor, st: usize, s: Store, s2: Store, i: int, opt_error: Option<Range<ParseErrorV>>, fuel: nat)
    requires
        alike(s, s2, st),
    ensures
        steps_alike(select_loop(args, debug_id, refs, c, st, s, i, opt_error, fuel), select_loop(args, debug_id, refs, c, st, s2, i, opt_error, fuel), st),
    decreases fuel, args.len() - i + 1,
{
    if 0 <= i < args.len() {
        lemma_parse_alike(args[i], refs, c, st, s, s2, fuel);
        match (parse_rule(args[i], refs, c, st, s, fuel), parse_rule(args[i], refs, c, st, s2, fuel)) {
            (Some((Err(e), sa)), Some((_, sb))) => lemma_select_alike(args, debug_id, refs, c, st, sa, sb, i + 1, err_update_spec(Some(e), opt_error), fuel),
            _ => {},
        }
    }
}

proof fn lemma_fast_select_alike(fs: FastSelectV, refs: Seq<RuleV>, c: Cursor, st: usize, s: Store, s2: Store, fuel: nat)
    requires
        alike(s, s2, st),
    ensures
        steps_alike(fast_select_step(fs, refs, c, st, s, fuel), fast_select_step(fs, refs, c, st, s2, fuel), st),
    decreases fuel, 1nat,
{
    if c.bytes.len() > 0 {
        let ind = fs.table[c.bytes[0] as int];
        let args = fs.args;
        if ind != 255 && (ind as int) < args.len() {
            lemma_parse_alike(args[ind as int], refs, c, st, s, s2, fuel);
            match (parse_rule(args[ind as int], refs, c, st, s, fuel), parse_rule(args[ind as int], refs, c, st, s2, fuel)) {
                (Some((Err(_), sa)), Some((_, sb))) => if fs.tail && args.len() > 0 {
                    lemma_parse_alike(args[args.len() - 1], refs, c, st, sa, sb, fuel);
                },
                _ => {},
            }
        } else if fs.tail && args.len() > 0 {
            lemma_parse_alike(args[args.len() - 1], refs, c, st, s, s2, fuel);
        }
    }
}

proof fn lemma_sequence_alike(args: Seq<RuleV>, refs: Seq<RuleV>, start: Cursor, c: Cursor, st: usize, s: Store, s2: Store, i: int, opt_error: Option<Range<ParseErrorV>>, fuel: nat)
    requires
        alike(s, s2, st),
    ensures
        steps_alike(sequence_loop(args, refs, start, c, st, s, i, opt_error, fuel), sequence_loop(args, refs, start, c, st, s2, i, opt_error, fuel), st),
    decreases fuel, args.len() - i + 1,
{
    if 0 <= i < args.len() {
        lemma_parse_alike(args[i], refs, c, st, s, s2, fuel);
        match (parse_rule(args[i], refs, c, st, s, fuel), parse_rule(args[i], refs, c, st, s2, fuel)) {
            (Some((Ok((range, st2, err)), sa)), Some((_, sb))) => if can_update(c, range) {
                super::kept_tokens::lemma_parse_keeps_tokens(args[i], refs, c, st, s, fuel);
                lemma_sequence_alike(args, refs, start, c.consume(range.length as int), st2, sa, sb, i + 1, err_update_spec(err, opt_error), fuel);
                lemma_steps_weaken(sequence_loop(args, refs, start, c.consume(range.length as int), st2, sa, i + 1, err_update_spec(err, opt_error), fuel), sequence_loop(args, refs, start, c.consume(range.length as int), st2, sb, i + 1, err_update_spec(err, opt_error), fuel), st2, st);
            },
            _ => {},
        }
    }
}

proof fn lemma_separate_by_alike(sep: SeparateByV, refs: Seq<RuleV>, start: Cursor, c: Cursor, st: usize, s: Store, s2: Store, first: bool, opt_error: Option<Range<ParseErrorV>>, fuel: nat)
    requires
        alike(s, s2, st),
    ensures
        steps_alike(separate_by_loop(sep, refs, start, c, st, s, first, opt_error, fuel), separate_by_loop(sep, refs, start, c, st, s2, first, opt_error, fuel), st),
    decreases fuel, 1nat,
{
    if fuel > 0 {
        lemma_parse_alike(*sep.rule, refs, c, st, s, s2, fuel);
        match (parse_rule(*sep.rule, refs, c, st, s, fuel), parse_rule(*sep.rule, refs, c, st, s2, fuel)) {
            (Some((Ok((range, st2, err)), sa)), Some((_, sb))) => if can_update(c, range) {
                super::kept_tokens::lemma_parse_keeps_tokens(*sep.rule, refs, c, st, s, fuel);
                let c2 = c.consume(range.length as int);
                let opt2 = err_update_spec(err, opt_error);
                lemma_parse_alike(*sep.by, refs, c2, st2, sa, sb, fuel);
                super::kept_tokens::lemma_parse_keeps_tokens(*sep.by, refs, c2, st2, sa, fuel);
                match (parse_rule(*sep.by, refs, c2, st2, sa, fuel), parse_rule(*sep.by, refs, c2, st2, sb, fuel)) {
                    (Some((Ok((range2, st3, err2)), sa3)), Some((_, sb3))) => if can_update(c2, range2) {
                        lemma_separate_by_alike(sep, refs, start, c2.consume(range2.length as int), st3, sa3, sb3, false, err_update_spec(err2, opt2), (fuel - 1) as nat);
                        lemma_steps_weaken(separate_by_loop(sep, refs, start, c2.consume(range2.length as int), st3, sa3, false, err_update_spec(err2, opt2), (fuel - 1) as nat), separate_by_loop(sep, refs, start, c2.consume(range2.length as int), st3, sb3, false, err_update_spec(err2, opt2), (fuel - 1) as nat), st3, st);
                    },
                    (Some((Err(_), sa3)), Some((_, sb3))) => lemma_alike_weaken(sa3, sb3, st2, st),
                    _ => {},
                }
            },
            _ => {},
        }
    }
}

proof fn lemma_repeat_alike(rep: RepeatV, refs: Seq<RuleV>, start: Cursor, c: Cursor, st: usize, s: Store, s2: Store, first: bool, opt_error: Option<Range<ParseErrorV>>, fuel: nat)
    requires
        alike(s, s2, st),
    ensures
        steps_alike(repeat_loop(rep, refs, start, c, st, s, first, opt_error, fuel), repeat_loop(rep, refs, start, c, st, s2, first, opt_error, fuel), st),
    decreases fuel, 1nat,
{
    if fuel > 0 {
        lemma_parse_alike(*rep.rule, refs, c, st, s, s2, fuel);
        match (parse_rule(*rep.rule, refs, c, st, s, fuel), parse_rule(*rep.rule, refs, c, st, s2, fuel)) {
            (Some((Ok((range, st2, err)), sa)), Some((_, sb))) => if can_update(c, range) {
                super::kept_tokens::lemma_parse_keeps_tokens(*rep.rule, refs, c, st, s, fuel);
                lemma_repeat_alike(rep, refs, start, c.consume(range.length as int), st2, sa, sb, false, err_update_spec(err, opt_error), (fuel - 1) as nat);
                lemma_steps_weaken(repeat_loop(rep, refs, start, c.consume(range.length as int), st2, sa, false, err_update_spec(err, opt_error), (fuel - 1) as nat), repeat_loop(rep, refs, start, c.consume(range.length as int), st2, sb, false, err_update_spec(err, opt_error), (fuel - 1) as nat), st2, st);
            },
            _ => {},
        }
    }
}

proof fn lemma_node_alike(n: NodeV, refs: Seq<RuleV>, c: Cursor, st: usize, s: Store, s2: Store, fuel: nat)
    requires
        alike(s, s2, st),
    ensures
        steps_alike(node_step(n, refs, c, st, s, fuel), node_step(n, refs, c, st, s2, fuel), st),
    decreases fuel, 1nat,
{
    match n.index {
        Some(index) => if index < refs.len() {
            lemma_stored_alike(s.tokens, s2.tokens, st);
            let (sa1, st1) = match n.property {
                Some(prop) => store_data(s, c.start(), MetaDataV::StartNode(prop), st),
                None => (s, st),
            };
            let (sb1, stb1) = match n.property {
                Some(prop) => store_data(s2, c.start(), MetaDataV::StartNode(prop), st),
                None => (s2, st),
            };
            assert(st1 == stb1);
            assert(alike(sa1, sb1, st1)) by {
                if n.property is Some {
                    assert(sa1.tokens.subrange(0, st1 as int) =~= sb1.tokens.subrange(0, st1 as int));
                }
            }
            lemma_parse_alike(refs[index as int], refs, c, st1, sa1, sb1, fuel);
            match (parse_rule(refs[index as int], refs, c, st1, sa1, fuel), parse_rule(refs[index as int], refs, c, st1, sb1, fuel)) {
                (Some((Ok((range, st2, err)), sa2)), Some((_, sb2))) => {
                    lemma_stored_alike(sa2.tokens, sb2.tokens, st2);
                    let range2 = Range { offset: c.offset as usize, length: range.length, data: () };
                    match n.property {
                        Some(prop) => {
                            let (sa3, st3) = store_data(sa2, range2, MetaDataV::EndNode(prop), st2);
                            let (sb3, stb3) = store_data(sb2, range2, MetaDataV::EndNode(prop), st2);
                            assert(sa3.tokens.subrange(0, st3 as int) =~= sb3.tokens.subrange(0, st3 as int));
                        },
                        None => {},
                    }
                },
                (Some((Err(_), sa2)), Some((_, sb2))) => {
                    assert(sa2.tokens.subrange(0, st as int) == sb2.tokens.subrange(0, st as int)) by {
                        super::kept_tokens::lemma_parse_keeps_tokens(refs[index as int], refs, c, st1, sa1, fuel);
                        super::kept_tokens::lemma_parse_keeps_tokens(refs[index as int], refs, c, st1, sb1, fuel);
                        assert(sa2.tokens.subrange(0, st as int) =~= sa2.tokens.subrange(0, st1 as int).subrange(0, st as int));
                        assert(sb2.tokens.subrange(0, st as int) =~= sb2.tokens.subrange(0, st1 as int).subrange(0, st as int));
                    }
                },
                _ => {},
            }
        },
        None => {},
    }
}

/// Whether two line readings keep the same state, error and first flag,
/// and alike stores at that state.
pub open spec fn accs_alike(a: LinesAcc, b: LinesAcc) -> bool {
    &&& a.state == b.state
    &&& a.opt_error == b.opt_error
    &&& a.first == b.first
    &&& alike(a.store, b.store, a.state)
}

proof fn lemma_line_item_alike(l: LinesV, refs: Seq<RuleV>, c: Cursor, a: LinesAcc, b: LinesAcc, fuel: nat)
    requires
        accs_alike(a, b),
    ensures
        match (line_item(l, refs, c, a, fuel), line_item(l, refs, c, b, fuel)) {
            (None, None) => true,
            (Some((ra, a2)), Some((rb, b2))) => ra == rb && accs_alike(a2, b2),
            _ => false,
        },
    decreases fuel, 1nat,
{
    if !l.indent {
        lemma_parse_alike(*l.rule, refs, c, a.state, a.store, b.store, fuel);
    } else {
        let ind = a.store.indent;
        match skip_indent(c, ind.indent, ind.tab_spaces) {
            None => {},
            Some(c1) => {
                let aligned: Option<(Option<Cursor>, bool, u32)> = if a.first && ind.align_first {
                    match align_indent(c1, ind.indent, ind.tab_spaces) {
                        None => None,
                        Some((c2, indent2)) => Some((Some(c2), false, indent2)),
                    }
                } else if is_prefix(seq![32u8], c1.bytes) {
                    Some((None, a.first, ind.indent))
                } else {
                    Some((Some(c1), a.first, ind.indent))
                };
                match aligned {
                    Some((Some(c2), first2, old_indent)) => if old_indent as int + 1 <= u32::MAX {
                        let store_a = Store { indent: IndentSettings { indent: (old_indent + 1) as u32, ..ind }, ..a.store };
                        let store_b = Store { indent: IndentSettings { indent: (old_indent + 1) as u32, ..ind }, ..b.store };
                        lemma_parse_alike(*l.rule, refs, c2, a.state, store_a, store_b, fuel);
                    },
                    _ => {},
                }
            },
        }
    }
}

proof fn lemma_lines_alike(l: LinesV, refs: Seq<RuleV>, start: Cursor, c: Cursor, new_lines: bool, a: LinesAcc, b: LinesAcc, fuel: nat)
    requires
        accs_alike(a, b),
    ensures
        steps_alike(lines_loop(l, refs, start, c, new_lines, a, fuel), lines_loop(l, refs, start, c, new_lines, b, fuel), a.state),
    decreases fuel, 2nat,
{
    if fuel > 0 {
        let (kind, last) = line_scan(c.bytes, 0, 0);
        match kind {
            LineStart::End => {},
            LineStart::NewLine => if c.can_consume(last + 1) {
                lemma_lines_alike(l, refs, start, c.consume(last + 1), true, a, b, (fuel - 1) as nat);
            },
            LineStart::Content => if new_lines {
                lemma_line_item_alike(l, refs, c, a, b, fuel);
                super::kept_tokens::lemma_line_item_keeps(l, refs, c, a, fuel);
                match (line_item(l, refs, c, a, fuel), line_item(l, refs, c, b, fuel)) {
                    (Some((Some(range), a2)), Some((_, b2))) => {
                        let end = end_of(range) - c.offset;
                        if !(end_of(range) > usize::MAX || !c.can_consume(end) || !c.can_consume(range.length as int)) {
                            lemma_lines_alike(l, refs, start, c.consume(range.length as int), ends_with_newline(c.bytes.subrange(0, end), false), a2, b2, (fuel - 1) as nat);
                            lemma_steps_weaken(lines_loop(l, refs, start, c.consume(range.length as int), ends_with_newline(c.bytes.subrange(0, end), false), a2, (fuel - 1) as nat), lines_loop(l, refs, start, c.consume(range.length as int), ends_with_newline(c.bytes.subrange(0, end), false), b2, (fuel - 1) as nat), a2.state, a.state);
                        }
                    },
                    _ => {},
                }
            },
        }
    }
}

} // verus!
