//! What holds of every reading of rules.

use vstd::prelude::*;
use crate::range::Range;
use crate::read_token::Cursor;
use crate::parse_error::ParseErrorV;
use super::{RuleV, SeparateByV, RepeatV, LinesV, OptionalV, NotV, SelectV};
use super::semantics::{Store, Step, LinesAcc, LineStart, parse_rule, select_loop, sequence_loop, separate_by_loop, repeat_loop, lines_loop, line_scan, parse_ends, parse_outcome, enough_fuel, err_update_spec, end_of};

verus! {

/// Whether a step succeeds with a range that starts at the offset.
pub open spec fn ok_starts_at(step: Step, offset: int) -> bool {
    match step {
        Some((Ok((range, _, _)), _)) => range.offset == offset,
        _ => true,
    }
}

pub(crate) proof fn lemma_select_loop_starts(args: Seq<RuleV>, debug_id: usize, refs: Seq<RuleV>, c: Cursor, st: usize, s: Store, i: int, opt_error: Option<Range<ParseErrorV>>, fuel: nat)
    requires
        c.wf(),
    ensures
        ok_starts_at(select_loop(args, debug_id, refs, c, st, s, i, opt_error, fuel), c.offset),
    decreases args.len() - i,
{
    if 0 <= i < args.len() {
        match parse_rule(args[i], refs, c, st, s, fuel) {
            Some((Err(e), s2)) => lemma_select_loop_starts(args, debug_id, refs, c, st, s2, i + 1, err_update_spec(Some(e), opt_error), fuel),
            _ => {},
        }
    }
}

proof fn lemma_sequence_loop_starts(args: Seq<RuleV>, refs: Seq<RuleV>, start: Cursor, c: Cursor, st: usize, s: Store, i: int, opt_error: Option<Range<ParseErrorV>>, fuel: nat)
    requires
        start.wf(),
    ensures
        ok_starts_at(sequence_loop(args, refs, start, c, st, s, i, opt_error, fuel), start.offset),
    decreases args.len() - i,
{
    if 0 <= i < args.len() {
        match parse_rule(args[i], refs, c, st, s, fuel) {
            Some((Ok((range, st2, err)), s2)) => lemma_sequence_loop_starts(args, refs, start, c.consume(range.length as int), st2, s2, i + 1, err_update_spec(err, opt_error), fuel),
            _ => {},
        }
    }
}

proof fn lemma_separate_by_loop_starts(sep: SeparateByV, refs: Seq<RuleV>, start: Cursor, c: Cursor, st: usize, s: Store, first: bool, opt_error: Option<Range<ParseErrorV>>, fuel: nat)
    requires
        start.wf(),
    ensures
        ok_starts_at(separate_by_loop(sep, refs, start, c, st, s, first, opt_error, fuel), start.offset),
    decreases fuel,
{
    if fuel > 0 {
        match parse_rule(*sep.rule, refs, c, st, s, fuel) {
            Some((Ok((range, st2, err)), s2)) => {
                let c2 = c.consume(range.length as int);
                let opt2 = err_update_spec(err, opt_error);
                match parse_rule(*sep.by, refs, c2, st2, s2, fuel) {
                    Some((Ok((range2, st3, err2)), s3)) => lemma_separate_by_loop_starts(sep, refs, start, c2.consume(range2.length as int), st3, s3, false, err_update_spec(err2, opt2), (fuel - 1) as nat),
                    _ => {},
                }
            },
            _ => {},
        }
    }
}

proof fn lemma_repeat_loop_starts(rep: RepeatV, refs: Seq<RuleV>, start: Cursor, c: Cursor, st: usize, s: Store, first: bool, opt_error: Option<Range<ParseErrorV>>, fuel: nat)
    requires
        start.wf(),
    ensures
        ok_starts_at(repeat_loop(rep, refs, start, c, st, s, first, opt_error, fuel), start.offset),
    decreases fuel,
{
    if fuel > 0 {
        match parse_rule(*rep.rule, refs, c, st, s, fuel) {
            Some((Ok((range, st2, err)), s2)) => lemma_repeat_loop_starts(rep, refs, start, c.consume(range.length as int), st2, s2, false, err_update_spec(err, opt_error), (fuel - 1) as nat),
            _ => {},
        }
    }
}

proof fn lemma_lines_loop_starts(l: LinesV, refs: Seq<RuleV>, start: Cursor, c: Cursor, new_lines: bool, acc: LinesAcc, fuel: nat)
    requires
        start.wf(),
    ensures
        ok_starts_at(lines_loop(l, refs, start, c, new_lines, acc, fuel), start.offset),
    decreases fuel,
{
    if fuel > 0 {
        let (kind, last) = line_scan(c.bytes, 0, 0);
        match kind {
            LineStart::NewLine => if c.can_consume(last + 1) {
                lemma_lines_loop_starts(l, refs, start, c.consume(last + 1), true, acc, (fuel - 1) as nat);
            },
            LineStart::Content => if new_lines {
                match super::semantics::line_item(l, refs, c, acc, fuel) {
                    Some((Some(range), acc2)) => {
                        let end = end_of(range) - c.offset;
                        if !(end_of(range) > usize::MAX || !c.can_consume(end) || !c.can_consume(range.length as int)) {
                            lemma_lines_loop_starts(l, refs, start, c.consume(range.length as int), super::semantics::ends_with_newline(c.bytes.subrange(0, end), false), acc2, (fuel - 1) as nat);
                        }
                    },
                    _ => {},
                }
            },
            LineStart::End => {},
        }
    }
}

/// A rule that succeeds reads from where it starts: the range it reads
/// starts at the offset of the cursor.
pub proof fn lemma_range_starts_at_cursor(rule: RuleV, refs: Seq<RuleV>, c: Cursor, st: usize, s: Store)
    requires
        c.wf(),
        parse_ends(rule, refs, c, st, s),
    ensures
        parse_outcome(rule, refs, c, st, s).0 matches Ok((range, _, _)) ==> range.offset == c.offset,
{
    let fuel = enough_fuel(rule, refs, c, st, s);
    lemma_rule_starts(rule, refs, c, st, s, fuel);
}

/// A rule that succeeds within some fuel reads from where it starts.
pub proof fn lemma_rule_starts(rule: RuleV, refs: Seq<RuleV>, c: Cursor, st: usize, s: Store, fuel: nat)
    requires
        c.wf(),
    ensures
        ok_starts_at(parse_rule(rule, refs, c, st, s, fuel), c.offset),
{
    if fuel > 0 {
        let f = (fuel - 1) as nat;
        match rule {
            RuleV::Select(sel) => lemma_select_loop_starts(sel.args, sel.debug_id, refs, c, st, s, 0, None, f),
            RuleV::Sequence(seq) => lemma_sequence_loop_starts(seq.args, refs, c, c, st, s, 0, None, f),
            RuleV::SeparateBy(sep) => lemma_separate_by_loop_starts(sep, refs, c, c, st, s, true, None, f),
            RuleV::Repeat(rep) => lemma_repeat_loop_starts(rep, refs, c, c, st, s, true, None, f),
            RuleV::Lines(l) => lemma_lines_loop_starts(l, refs, c, c, true, LinesAcc { state: st, opt_error: None, first: true, store: s }, f),
            _ => {},
        }
    }
}

/// An optional rule never fails: where its sub rule fails, it reads
/// nothing, keeps the tokenizer state, and reports the sub rule's error.
pub proof fn lemma_optional_never_fails(o: OptionalV, refs: Seq<RuleV>, c: Cursor, st: usize, s: Store)
    requires
        parse_ends(RuleV::Optional(o), refs, c, st, s),
    ensures
        parse_outcome(RuleV::Optional(o), refs, c, st, s).0 is Ok,
        parse_outcome(*o.rule, refs, c, st, s).0 matches Err(e) ==> parse_outcome(RuleV::Optional(o), refs, c, st, s).0 == Ok::<(Range, usize, Option<Range<ParseErrorV>>), Range<ParseErrorV>>((c.start(), st, Some(e))),
{
    let fuel = enough_fuel(RuleV::Optional(o), refs, c, st, s);
    let f = (fuel - 1) as nat;
    assert(parse_rule(*o.rule, refs, c, st, s, f) is Some);
    lemma_fuel_agrees(*o.rule, refs, c, st, s, f);
}

/// A rule that must fail reads nothing: where it succeeds, its range is
/// empty at the cursor and the tokenizer state is kept.
pub proof fn lemma_not_reads_nothing(n: NotV, refs: Seq<RuleV>, c: Cursor, st: usize, s: Store)
    requires
        parse_ends(RuleV::Not(n), refs, c, st, s),
    ensures
        parse_outcome(RuleV::Not(n), refs, c, st, s).0 matches Ok((range, st2, err)) ==> range == c.start() && st2 == st && err is None,
{
}

/// A repetition that allows zero repetitions never fails.
pub proof fn lemma_optional_repeat_never_fails(rep: RepeatV, refs: Seq<RuleV>, c: Cursor, st: usize, s: Store)
    requires
        rep.optional,
        parse_ends(RuleV::Repeat(rep), refs, c, st, s),
    ensures
        parse_outcome(RuleV::Repeat(rep), refs, c, st, s).0 is Ok,
{
    let fuel = enough_fuel(RuleV::Repeat(rep), refs, c, st, s);
    lemma_repeat_loop_ok(rep, refs, c, c, st, s, true, None, (fuel - 1) as nat);
}

proof fn lemma_repeat_loop_ok(rep: RepeatV, refs: Seq<RuleV>, start: Cursor, c: Cursor, st: usize, s: Store, first: bool, opt_error: Option<Range<ParseErrorV>>, fuel: nat)
    requires
        rep.optional || !first,
    ensures
        repeat_loop(rep, refs, start, c, st, s, first, opt_error, fuel) matches Some((r, _)) ==> r is Ok,
    decreases fuel,
{
    if fuel > 0 {
        match parse_rule(*rep.rule, refs, c, st, s, fuel) {
            Some((Ok((range, st2, err)), s2)) => lemma_repeat_loop_ok(rep, refs, start, c.consume(range.length as int), st2, s2, false, err_update_spec(err, opt_error), (fuel - 1) as nat),
            _ => {},
        }
    }
}

/// A select takes the first sub rule that succeeds: where the first sub
/// rule succeeds, the select reads what it reads.
pub proof fn lemma_select_takes_first(sel: SelectV, refs: Seq<RuleV>, c: Cursor, st: usize, s: Store)
    requires
        sel.args.len() > 0,
        c.wf(),
        parse_ends(RuleV::Select(sel), refs, c, st, s),
    ensures
        parse_ends(sel.args[0], refs, c, st, s),
        parse_outcome(sel.args[0], refs, c, st, s).0 matches Ok((range, st2, err)) ==> parse_outcome(RuleV::Select(sel), refs, c, st, s).0 == Ok::<(Range, usize, Option<Range<ParseErrorV>>), Range<ParseErrorV>>((range, st2, err)),
{
    let fuel = enough_fuel(RuleV::Select(sel), refs, c, st, s);
    let f = (fuel - 1) as nat;
    assert(parse_rule(RuleV::Select(sel), refs, c, st, s, fuel) is Some);
    assert(parse_rule(RuleV::Select(sel), refs, c, st, s, fuel) == select_loop(sel.args, sel.debug_id, refs, c, st, s, 0, None, f));
    assert(parse_rule(sel.args[0], refs, c, st, s, f) is Some);
    lemma_fuel_agrees(sel.args[0], refs, c, st, s, f);
    lemma_rule_starts(sel.args[0], refs, c, st, s, f);
    match parse_rule(sel.args[0], refs, c, st, s, f) {
        Some((Ok((range, st2, err)), s2)) => {
            assert(ok_starts_at(parse_rule(sel.args[0], refs, c, st, s, f), c.offset));
            assert(range.offset == c.offset);
            assert(c.peek(range.length as int).offset == range.offset);
            assert(c.peek(range.length as int).length == range.length);
            assert(c.peek(range.length as int).data == range.data);
            assert(c.peek(range.length as int) == range);
            assert(err_update_spec(err, None) == err);
        },
        _ => {},
    }
}

/// The outcome of a reading does not depend on the fuel it is measured
/// with, once the fuel suffices.
pub proof fn lemma_fuel_agrees(rule: RuleV, refs: Seq<RuleV>, c: Cursor, st: usize, s: Store, fuel: nat)
    requires
        parse_rule(rule, refs, c, st, s, fuel) is Some,
    ensures
        parse_ends(rule, refs, c, st, s),
        parse_rule(rule, refs, c, st, s, fuel) == Some(parse_outcome(rule, refs, c, st, s)),
{
    let g = enough_fuel(rule, refs, c, st, s);
    assert(parse_rule(rule, refs, c, st, s, g) is Some);
    if fuel <= g {
        lemma_fuel_mono(rule, refs, c, st, s, fuel, g);
    } else {
        lemma_fuel_mono(rule, refs, c, st, s, g, fuel);
    }
}


/// With more fuel, a reading that ends gives the same outcome.
pub proof fn lemma_fuel_mono(rule: RuleV, refs: Seq<RuleV>, c: Cursor, st: usize, s: Store, f1: nat, f2: nat)
    requires
        f1 <= f2,
        parse_rule(rule, refs, c, st, s, f1) is Some,
    ensures
        parse_rule(rule, refs, c, st, s, f2) == parse_rule(rule, refs, c, st, s, f1),
    decreases f1, 0nat,
{
    let g1 = (f1 - 1) as nat;
    let g2 = (f2 - 1) as nat;
    match rule {
        RuleV::Select(sel) => lemma_select_mono(sel.args, sel.debug_id, refs, c, st, s, 0, None, g1, g2),
        RuleV::FastSelect(fs) => lemma_fast_select_mono(fs, refs, c, st, s, g1, g2),
        RuleV::Sequence(seq) => lemma_sequence_mono(seq.args, refs, c, c, st, s, 0, None, g1, g2),
        RuleV::SeparateBy(sep) => lemma_separate_by_mono(sep, refs, c, c, st, s, true, None, g1, g2),
        RuleV::Repeat(rep) => lemma_repeat_mono(rep, refs, c, c, st, s, true, None, g1, g2),
        RuleV::Lines(l) => lemma_lines_mono(l, refs, c, c, true, LinesAcc { state: st, opt_error: None, first: true, store: s }, g1, g2),
        RuleV::Node(n) => lemma_node_mono(n, refs, c, st, s, g1, g2),
        RuleV::Optional(o) => {
            lemma_fuel_mono(*o.rule, refs, c, st, s, g1, g2);
        },
        RuleV::Not(n) => {
            lemma_fuel_mono(*n.rule, refs, c, st, s, g1, g2);
        },
        _ => {},
    }
}

proof fn lemma_select_mono(args: Seq<RuleV>, debug_id: usize, refs: Seq<RuleV>, c: Cursor, st: usize, s: Store, i: int, opt_error: Option<Range<ParseErrorV>>, f1: nat, f2: nat)
    requires
        f1 <= f2,
        select_loop(args, debug_id, refs, c, st, s, i, opt_error, f1) is Some,
    ensures
        select_loop(args, debug_id, refs, c, st, s, i, opt_error, f2) == select_loop(args, debug_id, refs, c, st, s, i, opt_error, f1),
    decreases f1, args.len() - i + 1,
{
    if 0 <= i < args.len() {
        lemma_fuel_mono(args[i], refs, c, st, s, f1, f2);
        match parse_rule(args[i], refs, c, st, s, f1) {
            Some((Err(e), s2)) => lemma_select_mono(args, debug_id, refs, c, st, s2, i + 1, err_update_spec(Some(e), opt_error), f1, f2),
            _ => {},
        }
    }
}

proof fn lemma_fast_select_mono(fs: super::FastSelectV, refs: Seq<RuleV>, c: Cursor, st: usize, s: Store, f1: nat, f2: nat)
    requires
        f1 <= f2,
        super::semantics::fast_select_step(fs, refs, c, st, s, f1) is Some,
    ensures
        super::semantics::fast_select_step(fs, refs, c, st, s, f2) == super::semantics::fast_select_step(fs, refs, c, st, s, f1),
    decreases f1, 1nat,
{
    if c.bytes.len() > 0 {
        let ind = fs.table[c.bytes[0] as int];
        let args = fs.args;
        if ind != 255 && (ind as int) < args.len() {
            lemma_fuel_mono(args[ind as int], refs, c, st, s, f1, f2);
        }
        if fs.tail && args.len() > 0 {
            let s2 = if ind != 255 && (ind as int) < args.len() {
                match parse_rule(args[ind as int], refs, c, st, s, f1) {
                    Some((_, s2)) => s2,
                    None => s,
                }
            } else {
                s
            };
            if parse_rule(args[args.len() - 1], refs, c, st, s2, f1) is Some {
                lemma_fuel_mono(args[args.len() - 1], refs, c, st, s2, f1, f2);
            }
        }
    }
}

proof fn lemma_sequence_mono(args: Seq<RuleV>, refs: Seq<RuleV>, start: Cursor, c: Cursor, st: usize, s: Store, i: int, opt_error: Option<Range<ParseErrorV>>, f1: nat, f2: nat)
    requires
        f1 <= f2,
        sequence_loop(args, refs, start, c, st, s, i, opt_error, f1) is Some,
    ensures
        sequence_loop(args, refs, start, c, st, s, i, opt_error, f2) == sequence_loop(args, refs, start, c, st, s, i, opt_error, f1),
    decreases f1, args.len() - i + 1,
{
    if 0 <= i < args.len() {
        lemma_fuel_mono(args[i], refs, c, st, s, f1, f2);
        match parse_rule(args[i], refs, c, st, s, f1) {
            Some((Ok((range, st2, err)), s2)) => if super::semantics::can_update(c, range) {
                lemma_sequence_mono(args, refs, start, c.consume(range.length as int), st2, s2, i + 1, err_update_spec(err, opt_error), f1, f2);
            },
            _ => {},
        }
    }
}

proof fn lemma_separate_by_mono(sep: SeparateByV, refs: Seq<RuleV>, start: Cursor, c: Cursor, st: usize, s: Store, first: bool, opt_error: Option<Range<ParseErrorV>>, f1: nat, f2: nat)
    requires
        f1 <= f2,
        separate_by_loop(sep, refs, start, c, st, s, first, opt_error, f1) is Some,
    ensures
        separate_by_loop(sep, refs, start, c, st, s, first, opt_error, f2) == separate_by_loop(sep, refs, start, c, st, s, first, opt_error, f1),
    decreases f1, 1nat,
{
    lemma_fuel_mono(*sep.rule, refs, c, st, s, f1, f2);
    match parse_rule(*sep.rule, refs, c, st, s, f1) {
        Some((Ok((range, st2, err)), s2)) => if super::semantics::can_update(c, range) {
            let c2 = c.consume(range.length as int);
            let opt2 = err_update_spec(err, opt_error);
            lemma_fuel_mono(*sep.by, refs, c2, st2, s2, f1, f2);
            match parse_rule(*sep.by, refs, c2, st2, s2, f1) {
                Some((Ok((range2, st3, err2)), s3)) => if super::semantics::can_update(c2, range2) {
                    lemma_separate_by_mono(sep, refs, start, c2.consume(range2.length as int), st3, s3, false, err_update_spec(err2, opt2), (f1 - 1) as nat, (f2 - 1) as nat);
                },
                _ => {},
            }
        },
        _ => {},
    }
}

proof fn lemma_repeat_mono(rep: RepeatV, refs: Seq<RuleV>, start: Cursor, c: Cursor, st: usize, s: Store, first: bool, opt_error: Option<Range<ParseErrorV>>, f1: nat, f2: nat)
    requires
        f1 <= f2,
        repeat_loop(rep, refs, start, c, st, s, first, opt_error, f1) is Some,
    ensures
        repeat_loop(rep, refs, start, c, st, s, first, opt_error, f2) == repeat_loop(rep, refs, start, c, st, s, first, opt_error, f1),
    decreases f1, 1nat,
{
    lemma_fuel_mono(*rep.rule, refs, c, st, s, f1, f2);
    match parse_rule(*rep.rule, refs, c, st, s, f1) {
        Some((Ok((range, st2, err)), s2)) => if super::semantics::can_update(c, range) {
            lemma_repeat_mono(rep, refs, start, c.consume(range.length as int), st2, s2, false, err_update_spec(err, opt_error), (f1 - 1) as nat, (f2 - 1) as nat);
        },
        _ => {},
    }
}

proof fn lemma_node_mono(n: super::NodeV, refs: Seq<RuleV>, c: Cursor, st: usize, s: Store, f1: nat, f2: nat)
    requires
        f1 <= f2,
        super::semantics::node_step(n, refs, c, st, s, f1) is Some,
    ensures
        super::semantics::node_step(n, refs, c, st, s, f2) == super::semantics::node_step(n, refs, c, st, s, f1),
    decreases f1, 1nat,
{
    match n.index {
        Some(index) => if index < refs.len() {
            let (s1, st1) = match n.property {
                Some(prop) => super::semantics::store_data(s, c.start(), crate::MetaDataV::StartNode(prop), st),
                None => (s, st),
            };
            lemma_fuel_mono(refs[index as int], refs, c, st1, s1, f1, f2);
        },
        None => {},
    }
}

proof fn lemma_line_item_mono(l: LinesV, refs: Seq<RuleV>, c: Cursor, acc: LinesAcc, f1: nat, f2: nat)
    requires
        f1 <= f2,
        super::semantics::line_item(l, refs, c, acc, f1) is Some,
    ensures
        super::semantics::line_item(l, refs, c, acc, f2) == super::semantics::line_item(l, refs, c, acc, f1),
    decreases f1, 1nat,
{
    if !l.indent {
        lemma_fuel_mono(*l.rule, refs, c, acc.state, acc.store, f1, f2);
    } else {
        let ind = acc.store.indent;
        match super::semantics::skip_indent(c, ind.indent, ind.tab_spaces) {
            None => {},
            Some(c1) => {
                let aligned: Option<(Option<Cursor>, bool, u32)> = if acc.first && ind.align_first {
                    match super::semantics::align_indent(c1, ind.indent, ind.tab_spaces) {
                        None => None,
                        Some((c2, indent2)) => Some((Some(c2), false, indent2)),
                    }
                } else if crate::read_token::is_prefix(seq![32u8], c1.bytes) {
                    Some((None, acc.first, ind.indent))
                } else {
                    Some((Some(c1), acc.first, ind.indent))
                };
                match aligned {
                    Some((Some(c2), first2, old_indent)) => if old_indent as int + 1 <= u32::MAX {
                        let store1 = Store { indent: super::IndentSettings { indent: (old_indent + 1) as u32, ..ind }, ..acc.store };
                        lemma_fuel_mono(*l.rule, refs, c2, acc.state, store1, f1, f2);
                    },
                    _ => {},
                }
            },
        }
    }
}

proof fn lemma_lines_mono(l: LinesV, refs: Seq<RuleV>, start: Cursor, c: Cursor, new_lines: bool, acc: LinesAcc, f1: nat, f2: nat)
    requires
        f1 <= f2,
        lines_loop(l, refs, start, c, new_lines, acc, f1) is Some,
    ensures
        lines_loop(l, refs, start, c, new_lines, acc, f2) == lines_loop(l, refs, start, c, new_lines, acc, f1),
    decreases f1, 2nat,
{
    let (kind, last) = line_scan(c.bytes, 0, 0);
    match kind {
        LineStart::End => {},
        LineStart::NewLine => if c.can_consume(last + 1) {
            lemma_lines_mono(l, refs, start, c.consume(last + 1), true, acc, (f1 - 1) as nat, (f2 - 1) as nat);
        },
        LineStart::Content => if new_lines {
            lemma_line_item_mono(l, refs, c, acc, f1, f2);
            match super::semantics::line_item(l, refs, c, acc, f1) {
                Some((Some(range), acc2)) => {
                    let end = end_of(range) - c.offset;
                    if !(end_of(range) > usize::MAX || !c.can_consume(end) || !c.can_consume(range.length as int)) {
                        lemma_lines_mono(l, refs, start, c.consume(range.length as int), super::semantics::ends_with_newline(c.bytes.subrange(0, end), false), acc2, (f1 - 1) as nat, (f2 - 1) as nat);
                    }
                },
                _ => {},
            }
        },
    }
}


/// Keeping errors picks the deepest one, the newest one where they are
/// equally deep, and keeps one where there is one.
pub proof fn lemma_err_update_deepest(err: Option<Range<ParseErrorV>>, opt_error: Option<Range<ParseErrorV>>)
    ensures
        (err is Some || opt_error is Some) ==> err_update_spec(err, opt_error) is Some,
        err_update_spec(err, opt_error) matches Some(r) ==> (r == err->0 || r == opt_error->0),
        err matches Some(e) ==> (err_update_spec(err, opt_error) matches Some(r) && end_of(r) >= end_of(e)),
        opt_error matches Some(o) ==> (err_update_spec(err, opt_error) matches Some(r) && end_of(r) >= end_of(o)),
        (err matches Some(e) && (opt_error matches Some(o) && end_of(o) == end_of(e))) ==> err_update_spec(err, opt_error) == err,
{
}

/// Of an error that certainly fails and an optional one, the deeper one is
/// reported, the certain one where they are equally deep.
pub proof fn lemma_ret_err_deepest(a: Range<ParseErrorV>, b: Option<Range<ParseErrorV>>)
    ensures
        end_of(super::semantics::ret_err_spec(a, b)) >= end_of(a),
        b matches Some(e) ==> end_of(super::semantics::ret_err_spec(a, b)) >= end_of(e),
        (b matches Some(e) && end_of(e) <= end_of(a)) ==> super::semantics::ret_err_spec(a, b) == a,
        b is None ==> super::semantics::ret_err_spec(a, b) == a,
{
}

} // verus!
