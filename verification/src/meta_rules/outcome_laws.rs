//! What documents, repetitions and texts leave in the token list.

use vstd::prelude::*;
use crate::range::Range;
use crate::read_token::{Cursor, string_value, lemma_string_len};
use crate::parse_error::ParseErrorV;
use crate::MetaDataV;
use super::{RuleV, RepeatV, TextV, SequenceV, SeparateByV, NodeV, parse_doc, parse_doc_ends, default_indent};
use super::semantics::{Store, Toks, parse_rule, repeat_loop, separate_by_loop, sequence_loop, node_step, store_data, can_update, parse_ends, parse_outcome, enough_fuel, err_update_spec};
use super::kept_tokens::{lemma_parse_keeps_tokens, lemma_reading_keeps_tokens};
use super::laws::lemma_fuel_agrees;

verus! {

/// A document read to its end leaves exactly the tokens up to the state
/// its rule ends at: the tokens it was given first, then those the
/// reading wrote, and nothing that a failed attempt wrote past that state.
pub proof fn lemma_doc_tokens_end_at_state(rules: Seq<RuleV>, text: Seq<u8>, tokens: Toks)
    requires
        rules.len() > 0,
        tokens.len() <= usize::MAX,
        parse_doc_ends(rules, text, tokens),
    ensures
        parse_doc(rules, text, tokens).0 is Ok ==> ({
            let c = Cursor { bytes: text, offset: 0 };
            let (res, store) = parse_outcome(rules.last(), rules, c, tokens.len() as usize, Store { tokens, indent: default_indent() });
            let out = parse_doc(rules, text, tokens).1;
            &&& res matches Ok((_, st, _))
            &&& out.len() == res->Ok_0.1
            &&& tokens.len() <= out.len()
            &&& out.subrange(0, tokens.len() as int) == tokens
            &&& out == store.tokens.subrange(0, out.len() as int)
        }),
{
    let c = Cursor { bytes: text, offset: 0 };
    let st0 = tokens.len() as usize;
    let s0 = Store { tokens, indent: default_indent() };
    lemma_reading_keeps_tokens(rules.last(), rules, c, st0, s0);
    let (res, store) = parse_outcome(rules.last(), rules, c, st0, s0);
    if let Ok((_, st, _)) = res {
        let out = parse_doc(rules, text, tokens).1;
        if parse_doc(rules, text, tokens).0 is Ok {
            assert(out =~= store.tokens.subrange(0, st as int));
            assert(out.subrange(0, tokens.len() as int) =~= store.tokens.subrange(0, st0 as int));
            assert(tokens.subrange(0, st0 as int) =~= tokens);
        }
    }
}

/// Repeating carries the state on: once a repetition succeeds, the
/// repetitions after it start from the state it ends at, so the reading
/// succeeds at a state no earlier than that.
proof fn lemma_repeat_loop_state(rep: RepeatV, refs: Seq<RuleV>, start: Cursor, c: Cursor, st: usize, s: Store, opt_error: Option<Range<ParseErrorV>>, fuel: nat)
    requires
        st <= s.tokens.len(),
    ensures
        repeat_loop(rep, refs, start, c, st, s, false, opt_error, fuel) matches Some((res, _)) ==> (res matches Ok((_, st_end, _)) && st <= st_end),
    decreases fuel,
{
    if fuel > 0 {
        lemma_parse_keeps_tokens(*rep.rule, refs, c, st, s, fuel);
        match parse_rule(*rep.rule, refs, c, st, s, fuel) {
            Some((Ok((range, st2, err)), s2)) => if can_update(c, range) {
                lemma_repeat_loop_state(rep, refs, start, c.consume(range.length as int), st2, s2, err_update_spec(err, opt_error), (fuel - 1) as nat);
            },
            _ => {},
        }
    }
}

/// Where the first repetition of a repeated rule succeeds, the repetition
/// as a whole succeeds, at a state no earlier than the one the first
/// repetition ends at: what each repetition writes is kept.
pub proof fn lemma_repeat_keeps_first_state(rep: RepeatV, refs: Seq<RuleV>, c: Cursor, st: usize, s: Store)
    requires
        st <= s.tokens.len(),
        parse_ends(RuleV::Repeat(rep), refs, c, st, s),
    ensures
        parse_ends(*rep.rule, refs, c, st, s),
        parse_outcome(*rep.rule, refs, c, st, s).0 matches Ok((_, st2, _)) ==>
            (parse_outcome(RuleV::Repeat(rep), refs, c, st, s).0 matches Ok((_, st_end, _)) && st2 <= st_end),
{
    let fuel = enough_fuel(RuleV::Repeat(rep), refs, c, st, s);
    let f = (fuel - 1) as nat;
    assert(parse_rule(RuleV::Repeat(rep), refs, c, st, s, fuel) == repeat_loop(rep, refs, c, c, st, s, true, None, f));
    assert(parse_rule(*rep.rule, refs, c, st, s, f) is Some);
    lemma_fuel_agrees(*rep.rule, refs, c, st, s, f);
    lemma_parse_keeps_tokens(*rep.rule, refs, c, st, s, f);
    match parse_rule(*rep.rule, refs, c, st, s, f) {
        Some((Ok((range, st2, err)), s2)) => {
            lemma_repeat_loop_state(rep, refs, c, c.consume(range.length as int), st2, s2, err_update_spec(err, None), (f - 1) as nat);
        },
        _ => {},
    }
}

/// A text rule with a property that succeeds writes exactly one token, at
/// the state it starts at, holding the property and the unescaped string
/// read (the empty string included), and moves the state one on.
pub proof fn lemma_text_stores_its_value(t: TextV, refs: Seq<RuleV>, c: Cursor, st: usize, s: Store)
    requires
        c.wf(),
        st <= s.tokens.len(),
        st < usize::MAX,
        t.property is Some,
    ensures
        parse_ends(RuleV::Text(t), refs, c, st, s),
        parse_outcome(RuleV::Text(t), refs, c, st, s) matches (Ok((range, st2, _)), s2) ==> {
            &&& st2 == st + 1
            &&& s2.tokens.len() == st + 1
            &&& s2.tokens.subrange(0, st as int) == s.tokens.subrange(0, st as int)
            &&& string_value(c.bytes, c.offset, range.length as int) matches Ok(v)
                && s2.tokens[st as int] == (Range { offset: range.offset, length: range.length, data: MetaDataV::String(t.property->0, v) })
        },
{
    assert(parse_rule(RuleV::Text(t), refs, c, st, s, 1) is Some);
    lemma_fuel_agrees(RuleV::Text(t), refs, c, st, s, 1);
    lemma_string_len(c.bytes);
    match parse_outcome(RuleV::Text(t), refs, c, st, s) {
        (Ok((range, st2, _)), s2) => {
            let n = crate::read_token::string_len(c.bytes)->0;
            assert(range.length as int == n);
            assert(s2.tokens.subrange(0, st as int) =~= s.tokens.subrange(0, st as int));
        },
        _ => {},
    }
}

/// The sub rules of a sequence read one after another from the state the
/// one before ends at, so a sequence that succeeds ends at a state no
/// earlier than the one its `i`-th sub rule starts at.
proof fn lemma_sequence_loop_state(args: Seq<RuleV>, refs: Seq<RuleV>, start: Cursor, c: Cursor, st: usize, s: Store, i: int, opt_error: Option<Range<ParseErrorV>>, fuel: nat)
    requires
        st <= s.tokens.len(),
    ensures
        sequence_loop(args, refs, start, c, st, s, i, opt_error, fuel) matches Some((Ok((_, st_end, _)), _)) ==> st <= st_end,
    decreases args.len() - i,
{
    if 0 <= i < args.len() {
        lemma_parse_keeps_tokens(args[i], refs, c, st, s, fuel);
        match parse_rule(args[i], refs, c, st, s, fuel) {
            Some((Ok((range, st2, err)), s2)) => if can_update(c, range) {
                lemma_sequence_loop_state(args, refs, start, c.consume(range.length as int), st2, s2, i + 1, err_update_spec(err, opt_error), fuel);
            },
            _ => {},
        }
    }
}

/// A sequence that succeeds ends at a state no earlier than the one its
/// first sub rule ends at: what each sub rule writes is kept.
pub proof fn lemma_sequence_keeps_first_state(seq: SequenceV, refs: Seq<RuleV>, c: Cursor, st: usize, s: Store)
    requires
        st <= s.tokens.len(),
        seq.args.len() > 0,
        parse_ends(RuleV::Sequence(seq), refs, c, st, s),
    ensures
        parse_ends(seq.args[0], refs, c, st, s),
        parse_outcome(RuleV::Sequence(seq), refs, c, st, s).0 matches Ok((_, st_end, _)) ==>
            (parse_outcome(seq.args[0], refs, c, st, s).0 matches Ok((_, st2, _)) && st2 <= st_end),
{
    let fuel = enough_fuel(RuleV::Sequence(seq), refs, c, st, s);
    let f = (fuel - 1) as nat;
    assert(parse_rule(RuleV::Sequence(seq), refs, c, st, s, fuel) == sequence_loop(seq.args, refs, c, c, st, s, 0, None, f));
    assert(parse_rule(seq.args[0], refs, c, st, s, f) is Some);
    lemma_fuel_agrees(seq.args[0], refs, c, st, s, f);
    lemma_parse_keeps_tokens(seq.args[0], refs, c, st, s, f);
    match parse_rule(seq.args[0], refs, c, st, s, f) {
        Some((Ok((range, st2, err)), s2)) => if can_update(c, range) {
            lemma_sequence_loop_state(seq.args, refs, c, c.consume(range.length as int), st2, s2, 1, err_update_spec(err, None), f);
        },
        _ => {},
    }
}

/// A node with a property that succeeds writes the start of the node at
/// the state it starts at, and ends with the end of the node as the last
/// token.
pub proof fn lemma_node_brackets_its_data(n: NodeV, refs: Seq<RuleV>, c: Cursor, st: usize, s: Store)
    requires
        st <= s.tokens.len(),
        st < usize::MAX,
        n.property is Some,
        parse_ends(RuleV::Node(n), refs, c, st, s),
    ensures
        parse_outcome(RuleV::Node(n), refs, c, st, s) matches (Ok((_, st_end, _)), s3) ==> {
            &&& st < st_end
            &&& s3.tokens.len() > st + 1
            &&& s3.tokens[st as int].data == MetaDataV::StartNode(n.property->0)
            &&& s3.tokens.last().data == MetaDataV::EndNode(n.property->0)
            &&& s3.tokens.subrange(0, st as int) == s.tokens.subrange(0, st as int)
        },
{
    let fuel = enough_fuel(RuleV::Node(n), refs, c, st, s);
    let f = (fuel - 1) as nat;
    assert(parse_rule(RuleV::Node(n), refs, c, st, s, fuel) == node_step(n, refs, c, st, s, f));
    let prop = n.property->0;
    let (s1, st1) = store_data(s, c.start(), MetaDataV::StartNode(prop), st);
    let index = n.index->0;
    if n.index is Some && index < refs.len() {
        assert(st1 == st + 1);
        assert(s1.tokens.len() == st + 1);
        assert(s1.tokens[st as int].data == MetaDataV::StartNode(prop));
        lemma_parse_keeps_tokens(refs[index as int], refs, c, st1, s1, f);
        match parse_rule(refs[index as int], refs, c, st1, s1, f) {
            Some((Ok((range, st2, err)), s2)) => {
                let range2 = Range { offset: c.offset as usize, length: range.length, data: () };
                let (s3, st3) = store_data(s2, range2, MetaDataV::EndNode(prop), st2);
                let kept = if (st2 as int) < s2.tokens.len() { s2.tokens.subrange(0, st2 as int) } else { s2.tokens };
                assert(kept.len() == st2);
                assert(s3.tokens =~= kept.push(Range { offset: range2.offset, length: range2.length, data: MetaDataV::EndNode(prop) }));
                assert(s2.tokens.subrange(0, st1 as int)[st as int] == s2.tokens[st as int]);
                assert(s1.tokens.subrange(0, st1 as int)[st as int] == s1.tokens[st as int]);
                assert(s3.tokens[st as int] == s2.tokens[st as int]);
                assert(s3.tokens.subrange(0, st as int) =~= s2.tokens.subrange(0, st1 as int).subrange(0, st as int));
                assert(s1.tokens.subrange(0, st as int) =~= s.tokens.subrange(0, st as int));
                assert(s1.tokens.subrange(0, st1 as int).subrange(0, st as int) =~= s1.tokens.subrange(0, st as int));
            },
            _ => {},
        }
    }
}

/// Items separated by another rule read one after another from the state
/// the one before ends at, so the reading, where it succeeds, ends at a
/// state no earlier than the one it goes on from.
proof fn lemma_separate_by_loop_state(sep: SeparateByV, refs: Seq<RuleV>, start: Cursor, c: Cursor, st: usize, s: Store, first: bool, opt_error: Option<Range<ParseErrorV>>, fuel: nat)
    requires
        st <= s.tokens.len(),
    ensures
        separate_by_loop(sep, refs, start, c, st, s, first, opt_error, fuel) matches Some((Ok((_, st_end, _)), _)) ==> st <= st_end,
    decreases fuel,
{
    if fuel > 0 {
        lemma_parse_keeps_tokens(*sep.rule, refs, c, st, s, fuel);
        match parse_rule(*sep.rule, refs, c, st, s, fuel) {
            Some((Ok((range, st2, err)), s2)) => if can_update(c, range) {
                let c2 = c.consume(range.length as int);
                lemma_parse_keeps_tokens(*sep.by, refs, c2, st2, s2, fuel);
                match parse_rule(*sep.by, refs, c2, st2, s2, fuel) {
                    Some((Ok((range2, st3, err2)), s3)) => if can_update(c2, range2) {
                        lemma_separate_by_loop_state(sep, refs, start, c2.consume(range2.length as int), st3, s3, false, err_update_spec(err2, err_update_spec(err, opt_error)), (fuel - 1) as nat);
                    },
                    _ => {},
                }
            },
            _ => {},
        }
    }
}

/// Where the first item of a rule separated by another succeeds, the
/// reading as a whole, if it succeeds, ends at a state no earlier than the
/// one the first item ends at: what each item writes is kept.
pub proof fn lemma_separate_by_keeps_first_state(sep: SeparateByV, refs: Seq<RuleV>, c: Cursor, st: usize, s: Store)
    requires
        st <= s.tokens.len(),
        parse_ends(RuleV::SeparateBy(sep), refs, c, st, s),
    ensures
        parse_ends(*sep.rule, refs, c, st, s),
        parse_outcome(*sep.rule, refs, c, st, s).0 matches Ok((_, st2, _)) ==>
            (parse_outcome(RuleV::SeparateBy(sep), refs, c, st, s).0 matches Ok((_, st_end, _)) ==> st2 <= st_end),
{
    let fuel = enough_fuel(RuleV::SeparateBy(sep), refs, c, st, s);
    let f = (fuel - 1) as nat;
    assert(parse_rule(RuleV::SeparateBy(sep), refs, c, st, s, fuel) == separate_by_loop(sep, refs, c, c, st, s, true, None, f));
    assert(parse_rule(*sep.rule, refs, c, st, s, f) is Some);
    lemma_fuel_agrees(*sep.rule, refs, c, st, s, f);
    lemma_parse_keeps_tokens(*sep.rule, refs, c, st, s, f);
    match parse_rule(*sep.rule, refs, c, st, s, f) {
        Some((Ok((range, st2, err)), s2)) => if can_update(c, range) {
            let c2 = c.consume(range.length as int);
            lemma_parse_keeps_tokens(*sep.by, refs, c2, st2, s2, f);
            match parse_rule(*sep.by, refs, c2, st2, s2, f) {
                Some((Ok((range2, st3, err2)), s3)) => if can_update(c2, range2) {
                    lemma_separate_by_loop_state(sep, refs, c, c2.consume(range2.length as int), st3, s3, false, err_update_spec(err2, err_update_spec(err, None)), (f - 1) as nat);
                },
                _ => {},
            }
        },
        _ => {},
    }
}

} // verus!
