//! A rule that succeeds reads no further than the text goes.

use vstd::prelude::*;
use crate::range::Range;
use crate::read_token::{Cursor, char_is_whitespace, lemma_prefix_while, lemma_string_len, lemma_consume_wf, lemma_boundary_range};
use crate::parse_error::ParseErrorV;
use super::{RuleV, SeparateByV, RepeatV, LinesV, FastSelectV, NodeV};
use super::semantics::{Store, Step, LinesAcc, LineStart, parse_rule, select_loop, fast_select_step, sequence_loop, separate_by_loop, repeat_loop, node_step, line_item, lines_loop, line_scan, ends_with_newline, can_update, parse_ends, parse_outcome, enough_fuel, err_update_spec, end_of};
use super::laws::lemma_rule_starts;

verus! {

/// Whether a step that read at `c` succeeds only with a range that ends
/// within the text that `c` holds.
pub open spec fn ok_within(step: Step, c: Cursor) -> bool {
    step matches Some((Ok((range, _, _)), _)) ==> range.offset + range.length <= c.offset + c.bytes.len()
}

/// Whether `c` is well formed text that ends where `start` ends, no
/// earlier than `start` begins.
pub open spec fn same_end(start: Cursor, c: Cursor) -> bool {
    &&& start.wf()
    &&& c.wf()
    &&& start.offset <= c.offset
    &&& c.offset + c.bytes.len() == start.offset + start.bytes.len()
}

/// Moving on by a whole number of characters keeps the end of the text.
proof fn lemma_consume_end(start: Cursor, c: Cursor, n: int)
    requires
        same_end(start, c),
        c.can_consume(n),
    ensures
        same_end(start, c.consume(n)),
{
    lemma_consume_wf(c, n);
}

/// A rule that succeeds at `c` reads a range that ends within the text.
pub proof fn lemma_parse_within(rule: RuleV, refs: Seq<RuleV>, c: Cursor, st: usize, s: Store, fuel: nat)
    requires
        c.wf(),
    ensures
        ok_within(parse_rule(rule, refs, c, st, s, fuel), c),
    decreases fuel, 0nat,
{
    if fuel > 0 {
        let f = (fuel - 1) as nat;
        match rule {
            RuleV::Whitespace(w) => {
                lemma_prefix_while(c.bytes, |ch: char| char_is_whitespace(ch));
            },
            RuleV::Tag(t) => {},
            RuleV::UntilAny(u) => {
                lemma_prefix_while(c.bytes, |ch: char| !u.any_characters.contains(ch));
            },
            RuleV::UntilAnyOrWhitespace(u) => {
                lemma_prefix_while(c.bytes, |ch: char| !char_is_whitespace(ch) && !u.any_characters.contains(ch));
            },
            RuleV::Text(t) => {
                lemma_string_len(c.bytes);
            },
            RuleV::Number(n) => {
                match crate::read_token::number_len(c.bytes, n.allow_underscore) {
                    Some(k) => if c.can_consume(k) {
                        lemma_boundary_range(c.bytes, k);
                    },
                    None => {},
                }
            },
            RuleV::Select(sel) => lemma_select_within(sel.args, sel.debug_id, refs, c, st, s, 0, None, f),
            RuleV::FastSelect(fs) => lemma_fast_select_within(fs, refs, c, st, s, f),
            RuleV::Sequence(seq) => lemma_sequence_within(seq.args, refs, c, c, st, s, 0, None, f),
            RuleV::SeparateBy(sep) => lemma_separate_by_within(sep, refs, c, c, st, s, true, None, f),
            RuleV::Repeat(rep) => lemma_repeat_within(rep, refs, c, c, st, s, true, None, f),
            RuleV::Lines(l) => lemma_lines_within(l, refs, c, c, true, LinesAcc { state: st, opt_error: None, first: true, store: s }, f),
            RuleV::Node(n) => lemma_node_within(n, refs, c, st, s, f),
            RuleV::Optional(o) => {
                lemma_parse_within(*o.rule, refs, c, st, s, f);
                lemma_rule_starts(*o.rule, refs, c, st, s, f);
            },
            RuleV::Not(n) => {},
        }
    }
}

proof fn lemma_select_within(args: Seq<RuleV>, debug_id: usize, refs: Seq<RuleV>, c: Cursor, st: usize, s: Store, i: int, opt_error: Option<Range<ParseErrorV>>, fuel: nat)
    requires
        c.wf(),
    ensures
        ok_within(select_loop(args, debug_id, refs, c, st, s, i, opt_error, fuel), c),
    decreases fuel, args.len() - i + 1,
{
    if 0 <= i < args.len() {
        lemma_parse_within(args[i], refs, c, st, s, fuel);
        lemma_rule_starts(args[i], refs, c, st, s, fuel);
        match parse_rule(args[i], refs, c, st, s, fuel) {
            Some((Err(e), s2)) => lemma_select_within(args, debug_id, refs, c, st, s2, i + 1, err_update_spec(Some(e), opt_error), fuel),
            _ => {},
        }
    }
}

proof fn lemma_fast_select_within(fs: FastSelectV, refs: Seq<RuleV>, c: Cursor, st: usize, s: Store, fuel: nat)
    requires
        c.wf(),
    ensures
        ok_within(fast_select_step(fs, refs, c, st, s, fuel), c),
    decreases fuel, 1nat,
{
    if c.bytes.len() > 0 {
        let ind = fs.table[c.bytes[0] as int];
        let args = fs.args;
        let s2 = if ind != 255 && (ind as int) < args.len() {
            lemma_parse_within(args[ind as int], refs, c, st, s, fuel);
            lemma_rule_starts(args[ind as int], refs, c, st, s, fuel);
            match parse_rule(args[ind as int], refs, c, st, s, fuel) {
                Some((_, s2)) => s2,
                None => s,
            }
        } else {
            s
        };
        if fs.tail && args.len() > 0 {
            lemma_parse_within(args[args.len() - 1], refs, c, st, s2, fuel);
            lemma_rule_starts(args[args.len() - 1], refs, c, st, s2, fuel);
        }
    }
}

proof fn lemma_sequence_within(args: Seq<RuleV>, refs: Seq<RuleV>, start: Cursor, c: Cursor, st: usize, s: Store, i: int, opt_error: Option<Range<ParseErrorV>>, fuel: nat)
    requires
        same_end(start, c),
    ensures
        ok_within(sequence_loop(args, refs, start, c, st, s, i, opt_error, fuel), start),
    decreases fuel, args.len() - i + 1,
{
    if 0 <= i < args.len() {
        match parse_rule(args[i], refs, c, st, s, fuel) {
            Some((Ok((range, st2, err)), s2)) => if can_update(c, range) {
                lemma_consume_end(start, c, range.length as int);
                lemma_sequence_within(args, refs, start, c.consume(range.length as int), st2, s2, i + 1, err_update_spec(err, opt_error), fuel);
            },
            _ => {},
        }
    }
}

proof fn lemma_separate_by_within(sep: SeparateByV, refs: Seq<RuleV>, start: Cursor, c: Cursor, st: usize, s: Store, first: bool, opt_error: Option<Range<ParseErrorV>>, fuel: nat)
    requires
        same_end(start, c),
    ensures
        ok_within(separate_by_loop(sep, refs, start, c, st, s, first, opt_error, fuel), start),
    decreases fuel, 1nat,
{
    if fuel > 0 {
        match parse_rule(*sep.rule, refs, c, st, s, fuel) {
            Some((Ok((range, st2, err)), s2)) => if can_update(c, range) {
                lemma_consume_end(start, c, range.length as int);
                let c2 = c.consume(range.length as int);
                let opt2 = err_update_spec(err, opt_error);
                match parse_rule(*sep.by, refs, c2, st2, s2, fuel) {
                    Some((Ok((range2, st3, err2)), s3)) => if can_update(c2, range2) {
                        lemma_consume_end(start, c2, range2.length as int);
                        lemma_separate_by_within(sep, refs, start, c2.consume(range2.length as int), st3, s3, false, err_update_spec(err2, opt2), (fuel - 1) as nat);
                    },
                    _ => {},
                }
            },
            _ => {},
        }
    }
}

proof fn lemma_repeat_within(rep: RepeatV, refs: Seq<RuleV>, start: Cursor, c: Cursor, st: usize, s: Store, first: bool, opt_error: Option<Range<ParseErrorV>>, fuel: nat)
    requires
        same_end(start, c),
    ensures
        ok_within(repeat_loop(rep, refs, start, c, st, s, first, opt_error, fuel), start),
    decreases fuel, 1nat,
{
    if fuel > 0 {
        match parse_rule(*rep.rule, refs, c, st, s, fuel) {
            Some((Ok((range, st2, err)), s2)) => if can_update(c, range) {
                lemma_consume_end(start, c, range.length as int);
                lemma_repeat_within(rep, refs, start, c.consume(range.length as int), st2, s2, false, err_update_spec(err, opt_error), (fuel - 1) as nat);
            },
            _ => {},
        }
    }
}

proof fn lemma_node_within(n: NodeV, refs: Seq<RuleV>, c: Cursor, st: usize, s: Store, fuel: nat)
    requires
        c.wf(),
    ensures
        ok_within(node_step(n, refs, c, st, s, fuel), c),
    decreases fuel, 1nat,
{
    match n.index {
        Some(index) => if index < refs.len() {
            let (s1, st1) = match n.property {
                Some(prop) => super::semantics::store_data(s, c.start(), crate::MetaDataV::StartNode(prop), st),
                None => (s, st),
            };
            lemma_parse_within(refs[index as int], refs, c, st1, s1, fuel);
            lemma_rule_starts(refs[index as int], refs, c, st1, s1, fuel);
        },
        None => {},
    }
}

proof fn lemma_lines_within(l: LinesV, refs: Seq<RuleV>, start: Cursor, c: Cursor, new_lines: bool, acc: LinesAcc, fuel: nat)
    requires
        same_end(start, c),
    ensures
        ok_within(lines_loop(l, refs, start, c, new_lines, acc, fuel), start),
    decreases fuel, 2nat,
{
    if fuel > 0 {
        super::lines::lemma_line_scan(c.bytes, 0, 0);
        let (kind, last) = line_scan(c.bytes, 0, 0);
        match kind {
            LineStart::End => {},
            LineStart::NewLine => if c.can_consume(last + 1) {
                lemma_consume_end(start, c, last + 1);
                lemma_lines_within(l, refs, start, c.consume(last + 1), true, acc, (fuel - 1) as nat);
            },
            LineStart::Content => if new_lines {
                match line_item(l, refs, c, acc, fuel) {
                    Some((Some(range), acc2)) => {
                        let end = end_of(range) - c.offset;
                        if !(end_of(range) > usize::MAX || !c.can_consume(end) || !c.can_consume(range.length as int)) {
                            lemma_consume_end(start, c, range.length as int);
                            lemma_lines_within(l, refs, start, c.consume(range.length as int), ends_with_newline(c.bytes.subrange(0, end), false), acc2, (fuel - 1) as nat);
                        }
                    },
                    _ => {},
                }
            },
        }
    }
}

/// A rule that succeeds at `c` reads a range that starts at `c` and ends
/// within the text that `c` holds.
pub proof fn lemma_reading_within(rule: RuleV, refs: Seq<RuleV>, c: Cursor, st: usize, s: Store)
    requires
        c.wf(),
        parse_ends(rule, refs, c, st, s),
    ensures
        parse_outcome(rule, refs, c, st, s).0 matches Ok((range, _, _)) ==> range.offset == c.offset && range.offset + range.length <= c.offset + c.bytes.len(),
{
    let fuel = enough_fuel(rule, refs, c, st, s);
    lemma_parse_within(rule, refs, c, st, s, fuel);
    lemma_rule_starts(rule, refs, c, st, s, fuel);
}

} // verus!
