//! Reading never changes the tokens that come before the tokenizer state,
//! and a success moves the state forward, never past the tokens.

use vstd::prelude::*;
use crate::range::Range;
use crate::read_token::{Cursor, is_prefix};
use crate::parse_error::ParseErrorV;
use crate::tokenizer::stored;
use crate::MetaDataV;
use super::{RuleV, SeparateByV, RepeatV, LinesV, FastSelectV, NodeV, IndentSettings};
use super::semantics::{Store, Step, LinesAcc, LineStart, parse_rule, select_loop, fast_select_step, sequence_loop, separate_by_loop, repeat_loop, node_step, line_item, lines_loop, lines_step, line_scan, skip_indent, align_indent, ends_with_newline, can_update, store_data, parse_ends, parse_outcome, enough_fuel, err_update_spec, end_of};

verus! {

/// Whether `s2` holds at least `st` tokens, and the same first `st`
/// tokens as `s`.
pub open spec fn keeps_prefix(s: Store, s2: Store, st: usize) -> bool {
    &&& st <= s2.tokens.len()
    &&& s2.tokens.subrange(0, st as int) == s.tokens.subrange(0, st as int)
}

/// Whether a step that started at state `st` with store `s` keeps the
/// tokens before `st`, and, where it succeeds, ends at a state from `st`
/// up to the number of tokens.
pub open spec fn step_keeps(step: Step, s: Store, st: usize) -> bool {
    match step {
        Some((res, s2)) => {
            &&& keeps_prefix(s, s2, st)
            &&& (res matches Ok((_, st2, _)) ==> st <= st2 <= s2.tokens.len())
        },
        None => true,
    }
}

/// Keeping a prefix carries over from a longer prefix.
proof fn lemma_keeps_trans(s0: Store, s1: Store, s2: Store, st0: usize, st1: usize)
    requires
        keeps_prefix(s0, s1, st0),
        keeps_prefix(s1, s2, st1),
        st0 <= st1 <= s1.tokens.len(),
    ensures
        keeps_prefix(s0, s2, st0),
{
    assert(s2.tokens.subrange(0, st0 as int) =~= s2.tokens.subrange(0, st1 as int).subrange(0, st0 as int));
    assert(s1.tokens.subrange(0, st0 as int) =~= s1.tokens.subrange(0, st1 as int).subrange(0, st0 as int));
}

/// Storing a token at a state no further than the tokens keeps the tokens
/// before the state and moves the state one on.
proof fn lemma_stored(tokens: Seq<Range<MetaDataV>>, st: usize)
    requires
        st <= tokens.len(),
    ensures
        forall|d: Range<MetaDataV>| {
            let (t, n) = #[trigger] stored(tokens, d, st);
            &&& st < n || n == usize::MAX
            &&& st <= n <= t.len()
            &&& t.subrange(0, st as int) == tokens.subrange(0, st as int)
        },
{
    assert forall|d: Range<MetaDataV>| {
        let (t, n) = #[trigger] stored(tokens, d, st);
        &&& st < n || n == usize::MAX
        &&& st <= n <= t.len()
        &&& t.subrange(0, st as int) == tokens.subrange(0, st as int)
    } by {
        let (t, n) = stored(tokens, d, st);
        assert(t.subrange(0, st as int) =~= tokens.subrange(0, st as int));
    }
}

/// Reading a rule keeps the tokens before the state it starts at, and a
/// success ends at a state from there up to the number of tokens.
pub proof fn lemma_parse_keeps_tokens(rule: RuleV, refs: Seq<RuleV>, c: Cursor, st: usize, s: Store, fuel: nat)
    requires
        st <= s.tokens.len(),
    ensures
        step_keeps(parse_rule(rule, refs, c, st, s, fuel), s, st),
    decreases fuel, 0nat,
{
    if fuel > 0 {
        let f = (fuel - 1) as nat;
        lemma_stored(s.tokens, st);
        assert(s.tokens.subrange(0, st as int) =~= s.tokens.subrange(0, st as int));
        match rule {
            RuleV::Select(sel) => lemma_select_keeps(sel.args, sel.debug_id, refs, c, st, s, s, 0, None, f),
            RuleV::FastSelect(fs) => lemma_fast_select_keeps(fs, refs, c, st, s, f),
            RuleV::Sequence(seq) => lemma_sequence_keeps(seq.args, refs, c, c, st, s, st, s, 0, None, f),
            RuleV::SeparateBy(sep) => lemma_separate_by_keeps(sep, refs, c, c, st, s, st, s, true, None, f),
            RuleV::Repeat(rep) => lemma_repeat_keeps(rep, refs, c, c, st, s, st, s, true, None, f),
            RuleV::Lines(l) => lemma_lines_keeps(l, refs, c, c, st, s, true, LinesAcc { state: st, opt_error: None, first: true, store: s }, f),
            RuleV::Node(n) => lemma_node_keeps(n, refs, c, st, s, f),
            RuleV::Optional(o) => {
                lemma_parse_keeps_tokens(*o.rule, refs, c, st, s, f);
            },
            RuleV::Not(n) => {
                lemma_parse_keeps_tokens(*n.rule, refs, c, st, s, f);
            },
            _ => {},
        }
    }
}

proof fn lemma_select_keeps(args: Seq<RuleV>, debug_id: usize, refs: Seq<RuleV>, c: Cursor, st: usize, s0: Store, s: Store, i: int, opt_error: Option<Range<ParseErrorV>>, fuel: nat)
    requires
        keeps_prefix(s0, s, st),
    ensures
        step_keeps(select_loop(args, debug_id, refs, c, st, s, i, opt_error, fuel), s0, st),
    decreases fuel, args.len() - i + 1,
{
    if 0 <= i < args.len() {
        lemma_parse_keeps_tokens(args[i], refs, c, st, s, fuel);
        match parse_rule(args[i], refs, c, st, s, fuel) {
            Some((Err(e), s2)) => {
                lemma_keeps_trans(s0, s, s2, st, st);
                lemma_select_keeps(args, debug_id, refs, c, st, s0, s2, i + 1, err_update_spec(Some(e), opt_error), fuel);
            },
            Some((Ok(_), s2)) => {
                lemma_keeps_trans(s0, s, s2, st, st);
            },
            None => {},
        }
    }
}

proof fn lemma_fast_select_keeps(fs: FastSelectV, refs: Seq<RuleV>, c: Cursor, st: usize, s: Store, fuel: nat)
    requires
        st <= s.tokens.len(),
    ensures
        step_keeps(fast_select_step(fs, refs, c, st, s, fuel), s, st),
    decreases fuel, 1nat,
{
    assert(s.tokens.subrange(0, st as int) =~= s.tokens.subrange(0, st as int));
    if c.bytes.len() > 0 {
        let ind = fs.table[c.bytes[0] as int];
        let args = fs.args;
        let s2 = if ind != 255 && (ind as int) < args.len() {
            lemma_parse_keeps_tokens(args[ind as int], refs, c, st, s, fuel);
            match parse_rule(args[ind as int], refs, c, st, s, fuel) {
                Some((_, s2)) => s2,
                None => s,
            }
        } else {
            s
        };
        if fs.tail && args.len() > 0 {
            lemma_parse_keeps_tokens(args[args.len() - 1], refs, c, st, s2, fuel);
            match parse_rule(args[args.len() - 1], refs, c, st, s2, fuel) {
                Some((_, s3)) => lemma_keeps_trans(s, s2, s3, st, st),
                None => {},
            }
        }
    }
}

proof fn lemma_sequence_keeps(args: Seq<RuleV>, refs: Seq<RuleV>, start: Cursor, c: Cursor, st0: usize, s0: Store, st: usize, s: Store, i: int, opt_error: Option<Range<ParseErrorV>>, fuel: nat)
    requires
        keeps_prefix(s0, s, st0),
        st0 <= st <= s.tokens.len(),
    ensures
        step_keeps(sequence_loop(args, refs, start, c, st, s, i, opt_error, fuel), s0, st0),
    decreases fuel, args.len() - i + 1,
{
    if 0 <= i < args.len() {
        lemma_parse_keeps_tokens(args[i], refs, c, st, s, fuel);
        match parse_rule(args[i], refs, c, st, s, fuel) {
            Some((Ok((range, st2, err)), s2)) => {
                lemma_keeps_trans(s0, s, s2, st0, st);
                if can_update(c, range) {
                    lemma_sequence_keeps(args, refs, start, c.consume(range.length as int), st0, s0, st2, s2, i + 1, err_update_spec(err, opt_error), fuel);
                }
            },
            Some((Err(_), s2)) => lemma_keeps_trans(s0, s, s2, st0, st),
            None => {},
        }
    }
}

proof fn lemma_separate_by_keeps(sep: SeparateByV, refs: Seq<RuleV>, start: Cursor, c: Cursor, st0: usize, s0: Store, st: usize, s: Store, first: bool, opt_error: Option<Range<ParseErrorV>>, fuel: nat)
    requires
        keeps_prefix(s0, s, st0),
        st0 <= st <= s.tokens.len(),
    ensures
        step_keeps(separate_by_loop(sep, refs, start, c, st, s, first, opt_error, fuel), s0, st0),
    decreases fuel, 1nat,
{
    if fuel > 0 {
        lemma_parse_keeps_tokens(*sep.rule, refs, c, st, s, fuel);
        match parse_rule(*sep.rule, refs, c, st, s, fuel) {
            Some((Err(_), s2)) => lemma_keeps_trans(s0, s, s2, st0, st),
            Some((Ok((range, st2, err)), s2)) => {
                lemma_keeps_trans(s0, s, s2, st0, st);
                if can_update(c, range) {
                    let c2 = c.consume(range.length as int);
                    let opt2 = err_update_spec(err, opt_error);
                    lemma_parse_keeps_tokens(*sep.by, refs, c2, st2, s2, fuel);
                    match parse_rule(*sep.by, refs, c2, st2, s2, fuel) {
                        Some((Err(_), s3)) => lemma_keeps_trans(s0, s2, s3, st0, st2),
                        Some((Ok((range2, st3, err2)), s3)) => {
                            lemma_keeps_trans(s0, s2, s3, st0, st2);
                            if can_update(c2, range2) {
                                lemma_separate_by_keeps(sep, refs, start, c2.consume(range2.length as int), st0, s0, st3, s3, false, err_update_spec(err2, opt2), (fuel - 1) as nat);
                            }
                        },
                        None => {},
                    }
                }
            },
            None => {},
        }
    }
}

proof fn lemma_repeat_keeps(rep: RepeatV, refs: Seq<RuleV>, start: Cursor, c: Cursor, st0: usize, s0: Store, st: usize, s: Store, first: bool, opt_error: Option<Range<ParseErrorV>>, fuel: nat)
    requires
        keeps_prefix(s0, s, st0),
        st0 <= st <= s.tokens.len(),
    ensures
        step_keeps(repeat_loop(rep, refs, start, c, st, s, first, opt_error, fuel), s0, st0),
    decreases fuel, 1nat,
{
    if fuel > 0 {
        lemma_parse_keeps_tokens(*rep.rule, refs, c, st, s, fuel);
        match parse_rule(*rep.rule, refs, c, st, s, fuel) {
            Some((Err(_), s2)) => lemma_keeps_trans(s0, s, s2, st0, st),
            Some((Ok((range, st2, err)), s2)) => {
                lemma_keeps_trans(s0, s, s2, st0, st);
                if can_update(c, range) {
                    lemma_repeat_keeps(rep, refs, start, c.consume(range.length as int), st0, s0, st2, s2, false, err_update_spec(err, opt_error), (fuel - 1) as nat);
                }
            },
            None => {},
        }
    }
}

proof fn lemma_node_keeps(n: NodeV, refs: Seq<RuleV>, c: Cursor, st: usize, s: Store, fuel: nat)
    requires
        st <= s.tokens.len(),
    ensures
        step_keeps(node_step(n, refs, c, st, s, fuel), s, st),
    decreases fuel, 1nat,
{
    assert(s.tokens.subrange(0, st as int) =~= s.tokens.subrange(0, st as int));
    match n.index {
        Some(index) => if index < refs.len() {
            lemma_stored(s.tokens, st);
            let (s1, st1) = match n.property {
                Some(prop) => store_data(s, c.start(), MetaDataV::StartNode(prop), st),
                None => (s, st),
            };
            assert(keeps_prefix(s, s1, st));
            lemma_parse_keeps_tokens(refs[index as int], refs, c, st1, s1, fuel);
            match parse_rule(refs[index as int], refs, c, st1, s1, fuel) {
                Some((Err(_), s2)) => lemma_keeps_trans(s, s1, s2, st, st1),
                Some((Ok((range, st2, err)), s2)) => {
                    lemma_keeps_trans(s, s1, s2, st, st1);
                    lemma_stored(s2.tokens, st2);
                    let range2 = Range { offset: c.offset as usize, length: range.length, data: () };
                    match n.property {
                        Some(prop) => {
                            let (s3, st3) = store_data(s2, range2, MetaDataV::EndNode(prop), st2);
                            assert(keeps_prefix(s2, s3, st2));
                            lemma_keeps_trans(s, s2, s3, st, st2);
                        },
                        None => {},
                    }
                },
                None => {},
            }
        },
        None => {},
    }
}

/// Reading a line keeps the tokens before the state it starts at, and
/// ends at a state from there up to the number of tokens.
pub(crate) proof fn lemma_line_item_keeps(l: LinesV, refs: Seq<RuleV>, c: Cursor, acc: LinesAcc, fuel: nat)
    requires
        acc.state <= acc.store.tokens.len(),
    ensures
        line_item(l, refs, c, acc, fuel) matches Some((_, acc2)) ==> {
            &&& keeps_prefix(acc.store, acc2.store, acc.state)
            &&& acc.state <= acc2.state <= acc2.store.tokens.len()
        },
    decreases fuel, 1nat,
{
    assert(acc.store.tokens.subrange(0, acc.state as int) =~= acc.store.tokens.subrange(0, acc.state as int));
    if !l.indent {
        lemma_parse_keeps_tokens(*l.rule, refs, c, acc.state, acc.store, fuel);
    } else {
        let ind = acc.store.indent;
        match skip_indent(c, ind.indent, ind.tab_spaces) {
            None => {},
            Some(c1) => {
                let aligned: Option<(Option<Cursor>, bool, u32)> = if acc.first && ind.align_first {
                    match align_indent(c1, ind.indent, ind.tab_spaces) {
                        None => None,
                        Some((c2, indent2)) => Some((Some(c2), false, indent2)),
                    }
                } else if is_prefix(seq![32u8], c1.bytes) {
                    Some((None, acc.first, ind.indent))
                } else {
                    Some((Some(c1), acc.first, ind.indent))
                };
                match aligned {
                    Some((Some(c2), first2, old_indent)) => if old_indent as int + 1 <= u32::MAX {
                        let store1 = Store { indent: IndentSettings { indent: (old_indent + 1) as u32, ..ind }, ..acc.store };
                        lemma_parse_keeps_tokens(*l.rule, refs, c2, acc.state, store1, fuel);
                    },
                    _ => {},
                }
            },
        }
    }
}

proof fn lemma_lines_keeps(l: LinesV, refs: Seq<RuleV>, start: Cursor, c: Cursor, st0: usize, s0: Store, new_lines: bool, acc: LinesAcc, fuel: nat)
    requires
        keeps_prefix(s0, acc.store, st0),
        st0 <= acc.state <= acc.store.tokens.len(),
    ensures
        step_keeps(lines_loop(l, refs, start, c, new_lines, acc, fuel), s0, st0),
    decreases fuel, 2nat,
{
    if fuel > 0 {
        let (kind, last) = line_scan(c.bytes, 0, 0);
        match kind {
            LineStart::End => {},
            LineStart::NewLine => if c.can_consume(last + 1) {
                lemma_lines_keeps(l, refs, start, c.consume(last + 1), st0, s0, true, acc, (fuel - 1) as nat);
            },
            LineStart::Content => if new_lines {
                lemma_line_item_keeps(l, refs, c, acc, fuel);
                match line_item(l, refs, c, acc, fuel) {
                    Some((r, acc2)) => {
                        lemma_keeps_trans(s0, acc.store, acc2.store, st0, acc.state);
                        match r {
                            Some(range) => {
                                let end = end_of(range) - c.offset;
                                if !(end_of(range) > usize::MAX || !c.can_consume(end) || !c.can_consume(range.length as int)) {
                                    lemma_lines_keeps(l, refs, start, c.consume(range.length as int), st0, s0, ends_with_newline(c.bytes.subrange(0, end), false), acc2, (fuel - 1) as nat);
                                }
                            },
                            None => {},
                        }
                    },
                    None => {},
                }
            },
        }
    }
}

/// Reading a rule never changes the tokens before the tokenizer state it
/// starts at, and where it succeeds, it ends at a state from there up to
/// the number of tokens.
pub proof fn lemma_reading_keeps_tokens(rule: RuleV, refs: Seq<RuleV>, c: Cursor, st: usize, s: Store)
    requires
        st <= s.tokens.len(),
        parse_ends(rule, refs, c, st, s),
    ensures
        step_keeps(Some(parse_outcome(rule, refs, c, st, s)), s, st),
{
    lemma_parse_keeps_tokens(rule, refs, c, st, s, enough_fuel(rule, refs, c, st, s));
}

} // verus!
