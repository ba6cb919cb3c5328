//! What each rule does when it reads text, as mathematical functions.
//!
//! `parse_rule(rule, refs, cursor, state, store, fuel)` is the outcome of
//! reading `rule` at `cursor` with the tokenizer state `state`, where
//! `store` holds the token list and the indentation settings that the
//! parser changes as it goes. It is `None` when `fuel` runs out before
//! the reading ends, or when the reading would panic (a byte range that
//! cuts a character, a rule index out of bounds, an integer overflow).
//! A reading ends without panic when some fuel gives `Some`.

use vstd::prelude::*;
use vstd::utf8::*;
use crate::range::Range;
use crate::read_token::{Cursor, char_is_whitespace, head_char, head_len, tail, has_head, is_prefix, whitespace_len, until_any_len, until_any_or_whitespace_len, string_len, number_len, number_error, string_value, number_overflows};
use crate::parse_error::{ParseError, ParseErrorV, err_view, opt_err_view};
use crate::tokenizer::{TokenizerState, toks_view, stored};
use crate::MetaDataV;
use super::{ParseResult, IndentSettings, Whitespace, RuleV, TokenV, UntilAnyV, TextV, NumberV, FastSelectV, SeparateByV, RepeatV, LinesV, NodeV, OptionalV, NotV};

verus! {

/// The view of a parse result: a range, a tokenizer state and the deepest
/// error seen so far, or an error.
pub type ResV = Result<(Range, usize, Option<Range<ParseErrorV>>), Range<ParseErrorV>>;

/// A list of tokens.
pub type Toks = Seq<Range<MetaDataV>>;

/// What the parser changes as it reads: the token list and the indentation.
pub struct Store {
    /// The tokens, including those past the tokenizer state.
    pub tokens: Seq<Range<MetaDataV>>,
    /// The indentation settings.
    pub indent: IndentSettings,
}

/// A step of reading: the result and the store after it.
pub type Step = Option<(ResV, Store)>;

/// The store of a token list and indentation settings.
pub open spec fn store_of(tokens: Seq<Range<crate::MetaData>>, indent: IndentSettings) -> Store {
    Store { tokens: toks_view(tokens), indent }
}

/// The view of a parse result.
pub open spec fn res_view(r: ParseResult<TokenizerState>) -> ResV {
    match r {
        Ok((range, s, e)) => Ok((range, s.0, opt_err_view(e))),
        Err(e) => Err(err_view(e)),
    }
}

/// The view of a result that is a range or an error.
pub open spec fn res_range_view(r: Result<Range, Range<ParseError>>) -> Result<Range, Range<ParseErrorV>> {
    match r {
        Ok(range) => Ok(range),
        Err(e) => Err(err_view(e)),
    }
}

/// An error over a range.
pub open spec fn err_at(r: Range, e: ParseErrorV) -> Range<ParseErrorV> {
    Range { offset: r.offset, length: r.length, data: e }
}

/// The end of a range.
pub open spec fn end_of<T>(r: Range<T>) -> int {
    r.offset + r.length
}

/// Picks the deepest error, the newest one where they are equally deep.
pub open spec fn err_update_spec(err: Option<Range<ParseErrorV>>, opt_error: Option<Range<ParseErrorV>>) -> Option<Range<ParseErrorV>> {
    match opt_error {
        Some(o) => match err {
            Some(e) => if end_of(o) <= end_of(e) { Some(e) } else { Some(o) },
            None => Some(o),
        },
        None => err,
    }
}

/// Picks the deepest of an error that certainly fails and an optional
/// one, the certain one where they are equally deep.
pub open spec fn ret_err_spec(a: Range<ParseErrorV>, b: Option<Range<ParseErrorV>>) -> Range<ParseErrorV> {
    match b {
        Some(b) => if end_of(b) > end_of(a) { b } else { a },
        None => a,
    }
}

/// Stores a token at a tokenizer state.
pub open spec fn store_data(s: Store, r: Range, d: MetaDataV, st: usize) -> (Store, usize) {
    let (t, n) = stored(s.tokens, Range { offset: r.offset, length: r.length, data: d }, st);
    (Store { tokens: t, indent: s.indent }, n)
}

/// The ranged bytes at the start of the cursor as text.
pub open spec fn text_of(c: Cursor, n: int) -> Seq<char> {
    decode_utf8(c.bytes.subrange(0, n))
}

/// A successful result that stores a string property, if there is a property.
pub open spec fn ok_with_string(property: Option<Seq<char>>, range: Range, text: Seq<char>, st: usize, s: Toks) -> (ResV, Toks) {
    match property {
        Some(name) => {
            let (s2, st2) = stored(s, Range { offset: range.offset, length: range.length, data: MetaDataV::String(name, text) }, st);
            (Ok((range, st2, None)), s2)
        },
        None => (Ok((range, st, None)), s),
    }
}

/// A successful result that stores a bool property, if there is a property.
pub open spec fn ok_with_bool(property: Option<Seq<char>>, range: Range, val: bool, st: usize, s: Toks) -> (ResV, Toks) {
    match property {
        Some(name) => {
            let (s2, st2) = stored(s, Range { offset: range.offset, length: range.length, data: MetaDataV::Bool(name, val) }, st);
            (Ok((range, st2, None)), s2)
        },
        None => (Ok((range, st, None)), s),
    }
}

/// Reading whitespace.
pub open spec fn whitespace_result(w: Whitespace, c: Cursor) -> Result<Range, Range<ParseErrorV>> {
    let range = c.peek(whitespace_len(c.bytes));
    if range.length == 0 && !w.optional {
        Err(err_at(range, ParseErrorV::ExpectedWhitespace(w.debug_id)))
    } else {
        Ok(range)
    }
}

/// Reading a tag.
pub open spec fn token_step(t: TokenV, c: Cursor, st: usize, s: Toks) -> (ResV, Toks) {
    if is_prefix(encode_utf8(t.text), c.bytes) {
        let range = c.peek(encode_utf8(t.text).len() as int);
        if t.not {
            (Err(err_at(range, ParseErrorV::DidNotExpectTag(t.text, t.debug_id))), s)
        } else {
            ok_with_bool(t.property, range, !t.inverted, st, s)
        }
    } else {
        if t.not {
            ok_with_bool(t.property, c.start(), !t.inverted, st, s)
        } else {
            (Err(err_at(c.start(), ParseErrorV::ExpectedTag(t.text, t.debug_id))), s)
        }
    }
}

/// Reading until any of some characters.
pub open spec fn until_any_step(u: UntilAnyV, c: Cursor, st: usize, s: Toks) -> (ResV, Toks) {
    let range = c.peek(until_any_len(c.bytes, u.any_characters));
    if range.length == 0 && !u.optional {
        (Err(err_at(range, ParseErrorV::ExpectedSomething(u.debug_id))), s)
    } else {
        ok_with_string(u.property, range, text_of(c, range.length as int), st, s)
    }
}

/// Reading until whitespace or any of some characters.
pub open spec fn until_any_or_whitespace_step(u: UntilAnyV, c: Cursor, st: usize, s: Toks) -> (ResV, Toks) {
    let range = c.peek(until_any_or_whitespace_len(c.bytes, u.any_characters));
    if range.length == 0 && !u.optional {
        (Err(err_at(range, ParseErrorV::ExpectedSomething(u.debug_id))), s)
    } else {
        ok_with_string(u.property, range, text_of(c, range.length as int), st, s)
    }
}

/// Reading a string literal.
pub open spec fn text_step(t: TextV, c: Cursor, st: usize, s: Toks) -> (ResV, Toks) {
    match string_len(c.bytes) {
        Some(n) => {
            let range = c.peek(n);
            if !t.allow_empty && range.length == 2 {
                (Err(err_at(range, ParseErrorV::EmptyTextNotAllowed(t.debug_id))), s)
            } else {
                match string_value(c.bytes, c.offset, n) {
                    Err((o, l, k)) => (Err(Range { offset: o as usize, length: l as usize, data: ParseErrorV::ParseStringError(k, t.debug_id) }), s),
                    Ok(text) => ok_with_string(t.property, range, text, st, s),
                }
            }
        },
        None => (Err(err_at(c.start(), ParseErrorV::ExpectedText(t.debug_id))), s),
    }
}

/// Reading a number.
pub open spec fn number_step(num: NumberV, c: Cursor, st: usize, s: Toks) -> (ResV, Toks) {
    match number_len(c.bytes, num.allow_underscore) {
        Some(n) => {
            let range = c.peek(n);
            match number_error(c.bytes, num.allow_underscore, n) {
                Some(e) => (Err(err_at(range, ParseErrorV::ParseNumberError(e, num.debug_id))), s),
                None => match num.property {
                    Some(name) => {
                        let (s2, st2) = stored(s, Range { offset: range.offset, length: range.length, data: MetaDataV::F64(name, text_of(c, n)) }, st);
                        (Ok((range, st2, None)), s2)
                    },
                    None => (Ok((range, st, None)), s),
                },
            }
        },
        None => (Err(err_at(c.start(), ParseErrorV::ExpectedNumber(num.debug_id))), s),
    }
}

/// Whether reading a number at `c` would overflow the exponent of the
/// numeral, which panics.
pub open spec fn number_panics_at(num: NumberV, c: Cursor) -> bool {
    number_len(c.bytes, num.allow_underscore) matches Some(n) && number_overflows(c.bytes, num.allow_underscore, n)
}

/// Whether the numeral that the scanner finds at `c` ends on a character
/// boundary within the text, as `ReadToken::number` promises of it.
pub open spec fn number_fits(num: NumberV, c: Cursor) -> bool {
    number_len(c.bytes, num.allow_underscore) matches Some(n) ==> c.can_consume(n)
}

/// A result with the tokens put back in the store.
pub open spec fn with_tokens(r: (ResV, Toks), s: Store) -> (ResV, Store) {
    (r.0, Store { tokens: r.1, ..s })
}

/// Whether the cursor can move on by a range that a sub rule read.
pub open spec fn can_update(c: Cursor, range: Range) -> bool {
    c.can_consume(range.length as int)
}

/// Reading a rule.
pub open spec fn parse_rule(rule: RuleV, refs: Seq<RuleV>, c: Cursor, st: usize, s: Store, fuel: nat) -> Step
    decreases fuel, 0nat,
{
    if fuel == 0 {
        None
    } else {
        let f = (fuel - 1) as nat;
        match rule {
            RuleV::Whitespace(w) => match whitespace_result(w, c) {
                Ok(r) => Some((Ok((r, st, None)), s)),
                Err(e) => Some((Err(e), s)),
            },
            RuleV::Tag(t) => Some(with_tokens(token_step(t, c, st, s.tokens), s)),
            RuleV::UntilAny(u) => Some(with_tokens(until_any_step(u, c, st, s.tokens), s)),
            RuleV::UntilAnyOrWhitespace(u) => Some(with_tokens(until_any_or_whitespace_step(u, c, st, s.tokens), s)),
            RuleV::Text(t) => Some(with_tokens(text_step(t, c, st, s.tokens), s)),
            RuleV::Number(n) => if number_panics_at(n, c) || !number_fits(n, c) { None } else { Some(with_tokens(number_step(n, c, st, s.tokens), s)) },
            RuleV::Select(sel) => select_loop(sel.args, sel.debug_id, refs, c, st, s, 0, None, f),
            RuleV::FastSelect(fs) => fast_select_step(fs, refs, c, st, s, f),
            RuleV::Sequence(seq) => sequence_loop(seq.args, refs, c, c, st, s, 0, None, f),
            RuleV::SeparateBy(sep) => separate_by_loop(sep, refs, c, c, st, s, true, None, f),
            RuleV::Repeat(rep) => repeat_loop(rep, refs, c, c, st, s, true, None, f),
            RuleV::Lines(l) => lines_step(l, refs, c, st, s, f),
            RuleV::Node(n) => node_step(n, refs, c, st, s, f),
            RuleV::Optional(o) => optional_step(o, refs, c, st, s, f),
            RuleV::Not(n) => not_step(n, refs, c, st, s, f),
        }
    }
}

/// Trying the sub rules of a select from the `i`-th on.
pub open spec fn select_loop(args: Seq<RuleV>, debug_id: usize, refs: Seq<RuleV>, c: Cursor, st: usize, s: Store, i: int, opt_error: Option<Range<ParseErrorV>>, fuel: nat) -> Step
    decreases fuel, args.len() - i + 1,
{
    if i < 0 || i >= args.len() {
        match opt_error {
            None => Some((Err(err_at(c.start(), ParseErrorV::InvalidRule("`Select` requires at least one sub rule"@, debug_id))), s)),
            Some(e) => Some((Err(e), s)),
        }
    } else {
        match parse_rule(args[i], refs, c, st, s, fuel) {
            None => None,
            Some((Ok((range, st2, err)), s2)) => Some((Ok((c.peek(range.length as int), st2, err_update_spec(err, opt_error))), s2)),
            Some((Err(e), s2)) => select_loop(args, debug_id, refs, c, st, s2, i + 1, err_update_spec(Some(e), opt_error), fuel),
        }
    }
}

/// Reading a select by the first byte.
pub open spec fn fast_select_step(fs: FastSelectV, refs: Seq<RuleV>, c: Cursor, st: usize, s: Store, fuel: nat) -> Step
    decreases fuel, 1nat,
{
    if c.bytes.len() == 0 {
        Some((Err(err_at(c.start(), ParseErrorV::ExpectedSomething(fs.debug_id))), s))
    } else {
        let ind = fs.table[c.bytes[0] as int];
        let args = fs.args;
        if fs.tail {
            if ind != 255 && ind as int >= args.len() {
                None
            } else {
                let attempt: Option<Result<(ResV, Store), (Option<Range<ParseErrorV>>, Store)>> = if ind != 255 {
                    match parse_rule(args[ind as int], refs, c, st, s, fuel) {
                        None => None,
                        Some((Ok((range, st2, err)), s2)) => Some(Ok((Ok((c.peek(range.length as int), st2, err)), s2))),
                        Some((Err(e), s2)) => Some(Err((Some(e), s2))),
                    }
                } else {
                    Some(Err((None, s)))
                };
                match attempt {
                    None => None,
                    Some(Ok(done)) => Some(done),
                    Some(Err((opt_error, s2))) => if args.len() == 0 {
                        None
                    } else {
                        match parse_rule(args[args.len() - 1], refs, c, st, s2, fuel) {
                            None => None,
                            Some((Ok((range, st3, err)), s3)) => Some((Ok((c.peek(range.length as int), st3, err_update_spec(err, opt_error))), s3)),
                            Some((Err(e), s3)) => Some((Err(ret_err_spec(e, opt_error)), s3)),
                        }
                    },
                }
            }
        } else {
            if ind != 255 {
                if ind as int >= args.len() {
                    None
                } else {
                    match parse_rule(args[ind as int], refs, c, st, s, fuel) {
                        None => None,
                        Some((Ok((range, st2, err)), s2)) => Some((Ok((c.peek(range.length as int), st2, err)), s2)),
                        Some((Err(e), s2)) => Some((Err(e), s2)),
                    }
                }
            } else {
                Some((Err(err_at(c.start(), ParseErrorV::ExpectedSomething(fs.debug_id))), s))
            }
        }
    }
}

/// Reading the sub rules of a sequence from the `i`-th on, at `c`,
/// where the sequence started at `start`.
pub open spec fn sequence_loop(args: Seq<RuleV>, refs: Seq<RuleV>, start: Cursor, c: Cursor, st: usize, s: Store, i: int, opt_error: Option<Range<ParseErrorV>>, fuel: nat) -> Step
    decreases fuel, args.len() - i + 1,
{
    if i < 0 || i >= args.len() {
        Some((Ok((Range { offset: start.offset as usize, length: (c.offset - start.offset) as usize, data: () }, st, opt_error)), s))
    } else {
        match parse_rule(args[i], refs, c, st, s, fuel) {
            None => None,
            Some((Ok((range, st2, err)), s2)) => if can_update(c, range) {
                sequence_loop(args, refs, start, c.consume(range.length as int), st2, s2, i + 1, err_update_spec(err, opt_error), fuel)
            } else {
                None
            },
            Some((Err(e), s2)) => Some((Err(ret_err_spec(e, opt_error)), s2)),
        }
    }
}

/// Reading a rule separated by another rule, at `c`, where the reading
/// started at `start`.
pub open spec fn separate_by_loop(sep: SeparateByV, refs: Seq<RuleV>, start: Cursor, c: Cursor, st: usize, s: Store, first: bool, opt_error: Option<Range<ParseErrorV>>, fuel: nat) -> Step
    decreases fuel, 1nat,
{
    if fuel == 0 {
        None
    } else {
        let done = Range { offset: start.offset as usize, length: (c.offset - start.offset) as usize, data: () };
        match parse_rule(*sep.rule, refs, c, st, s, fuel) {
            None => None,
            Some((Err(e), s2)) => if (first && !sep.optional) || (!first && !sep.allow_trail) {
                Some((Err(ret_err_spec(e, opt_error)), s2))
            } else {
                Some((Ok((done, st, err_update_spec(Some(e), opt_error))), s2))
            },
            Some((Ok((range, st2, err)), s2)) => if !can_update(c, range) {
                None
            } else {
                let c2 = c.consume(range.length as int);
                let opt2 = err_update_spec(err, opt_error);
                let done2 = Range { offset: start.offset as usize, length: (c2.offset - start.offset) as usize, data: () };
                match parse_rule(*sep.by, refs, c2, st2, s2, fuel) {
                    None => None,
                    Some((Err(e), s3)) => Some((Ok((done2, st2, err_update_spec(Some(e), opt2))), s3)),
                    Some((Ok((range2, st3, err2)), s3)) => if !can_update(c2, range2) {
                        None
                    } else {
                        separate_by_loop(sep, refs, start, c2.consume(range2.length as int), st3, s3, false, err_update_spec(err2, opt2), (fuel - 1) as nat)
                    },
                }
            },
        }
    }
}

/// Repeating a rule at `c`, where the reading started at `start`.
pub open spec fn repeat_loop(rep: RepeatV, refs: Seq<RuleV>, start: Cursor, c: Cursor, st: usize, s: Store, first: bool, opt_error: Option<Range<ParseErrorV>>, fuel: nat) -> Step
    decreases fuel, 1nat,
{
    if fuel == 0 {
        None
    } else {
        match parse_rule(*rep.rule, refs, c, st, s, fuel) {
            None => None,
            Some((Err(e), s2)) => if first && !rep.optional {
                Some((Err(ret_err_spec(e, opt_error)), s2))
            } else {
                Some((Ok((Range { offset: start.offset as usize, length: (c.offset - start.offset) as usize, data: () }, st, err_update_spec(Some(e), opt_error))), s2))
            },
            Some((Ok((range, st2, err)), s2)) => if !can_update(c, range) {
                None
            } else {
                repeat_loop(rep, refs, start, c.consume(range.length as int), st2, s2, false, err_update_spec(err, opt_error), (fuel - 1) as nat)
            },
        }
    }
}

/// Reading a node by reference.
pub open spec fn node_step(node: NodeV, refs: Seq<RuleV>, c: Cursor, st: usize, s: Store, fuel: nat) -> Step
    decreases fuel, 1nat,
{
    match node.index {
        None => Some((Err(err_at(c.start(), ParseErrorV::InvalidRule("Node rule is not updated to reference"@, node.debug_id))), s)),
        Some(index) => if index >= refs.len() {
            None
        } else {
            let (s1, st1) = match node.property {
                Some(prop) => store_data(s, c.start(), MetaDataV::StartNode(prop), st),
                None => (s, st),
            };
            match parse_rule(refs[index as int], refs, c, st1, s1, fuel) {
                None => None,
                Some((Err(e), s2)) => Some((Err(e), s2)),
                Some((Ok((range, st2, err)), s2)) => if !can_update(c, range) {
                    None
                } else {
                    let range2 = Range { offset: c.offset as usize, length: range.length, data: () };
                    match node.property {
                        Some(prop) => {
                            let (s3, st3) = store_data(s2, range2, MetaDataV::EndNode(prop), st2);
                            Some((Ok((range2, st3, err)), s3))
                        },
                        None => Some((Ok((range2, st2, err)), s2)),
                    }
                },
            }
        },
    }
}

/// Reading an optional rule.
pub open spec fn optional_step(o: OptionalV, refs: Seq<RuleV>, c: Cursor, st: usize, s: Store, fuel: nat) -> Step
    decreases fuel, 1nat,
{
    match parse_rule(*o.rule, refs, c, st, s, fuel) {
        None => None,
        Some((Err(e), s2)) => Some((Ok((c.start(), st, Some(e))), s2)),
        Some((Ok((range, st2, err)), s2)) => if !can_update(c, range) {
            None
        } else {
            Some((Ok((Range { offset: c.offset as usize, length: range.length, data: () }, st2, err)), s2))
        },
    }
}

/// Reading a rule that must fail.
pub open spec fn not_step(n: NotV, refs: Seq<RuleV>, c: Cursor, st: usize, s: Store, fuel: nat) -> Step
    decreases fuel, 1nat,
{
    match parse_rule(*n.rule, refs, c, st, s, fuel) {
        None => None,
        Some((Err(_), s2)) => Some((Ok((c.start(), st, None)), s2)),
        Some((Ok((range, _, _)), s2)) => if !c.can_consume(range.length as int) {
            None
        } else {
            Some((Err(Range { offset: range.offset, length: range.length, data: ParseErrorV::DidNotExpectTag(text_of(c, range.length as int), n.debug_id) }), s2))
        },
    }
}

/// How a line starts: at the end of the text, with a new line, or with
/// something else.
pub enum LineStart {
    /// The text ends.
    End,
    /// A new line character comes.
    NewLine,
    /// Other text comes.
    Content,
}

/// Scans whitespace at the start of a line, `pos` bytes in; `last` is one
/// past the byte offset of the last whitespace character seen.
pub open spec fn line_scan(b: Seq<u8>, pos: int, last: int) -> (LineStart, int)
    decreases b.len(),
{
    if !has_head(b) {
        (LineStart::End, last)
    } else if head_char(b) == '\n' {
        (LineStart::NewLine, last)
    } else if !char_is_whitespace(head_char(b)) {
        (LineStart::Content, last)
    } else {
        line_scan(tail(b), pos + head_len(b), pos + 1)
    }
}

/// Whether the text ends with a new line followed by whitespace only;
/// `acc` is what is known from the text before `b`.
pub open spec fn ends_with_newline(b: Seq<u8>, acc: bool) -> bool
    decreases b.len(),
{
    if !has_head(b) {
        acc
    } else if head_char(b) == '\n' {
        ends_with_newline(tail(b), true)
    } else if !char_is_whitespace(head_char(b)) {
        ends_with_newline(tail(b), false)
    } else {
        ends_with_newline(tail(b), acc)
    }
}

/// Skipping `n` columns of indentation, a tab counting for `tab_spaces`.
/// `None` when a line is less indented.
pub open spec fn skip_indent(c: Cursor, n: u32, tab_spaces: u32) -> Option<Cursor>
    decreases c.bytes.len(),
{
    if n == 0 {
        Some(c)
    } else if is_prefix(seq![32u8], c.bytes) {
        skip_indent(c.consume(1), (n - 1) as u32, tab_spaces)
    } else if is_prefix(seq![9u8], c.bytes) {
        if n <= tab_spaces {
            Some(c.consume(1))
        } else {
            skip_indent(c.consume(1), (n - tab_spaces) as u32, tab_spaces)
        }
    } else {
        None
    }
}

/// Reading the indentation of the first line, which sets the indention.
/// `None` when the indention overflows.
pub open spec fn align_indent(c: Cursor, indent: u32, tab_spaces: u32) -> Option<(Cursor, u32)>
    decreases c.bytes.len(),
{
    if c.bytes.len() == 0 {
        Some((c, indent))
    } else if is_prefix(seq![32u8], c.bytes) {
        if indent as int + 1 > u32::MAX {
            None
        } else {
            align_indent(c.consume(1), (indent + 1) as u32, tab_spaces)
        }
    } else if is_prefix(seq![9u8], c.bytes) {
        if indent as int + tab_spaces > u32::MAX {
            None
        } else {
            align_indent(c.consume(1), (indent + tab_spaces) as u32, tab_spaces)
        }
    } else {
        Some((c, indent))
    }
}

/// What reading lines keeps from line to line.
pub struct LinesAcc {
    /// The tokenizer state.
    pub state: usize,
    /// The deepest error so far.
    pub opt_error: Option<Range<ParseErrorV>>,
    /// Whether no line has been read yet.
    pub first: bool,
    /// The token list and indentation.
    pub store: Store,
}

/// Reading one line: the range read, if any, and what is kept.
/// `None` when the reading would not end or would panic.
pub open spec fn line_item(l: LinesV, refs: Seq<RuleV>, c: Cursor, acc: LinesAcc, fuel: nat) -> Option<(Option<Range>, LinesAcc)>
    decreases fuel, 1nat,
{
    if !l.indent {
        match parse_rule(*l.rule, refs, c, acc.state, acc.store, fuel) {
            None => None,
            Some((Err(e), s2)) => Some((None, LinesAcc { opt_error: err_update_spec(Some(e), acc.opt_error), store: s2, ..acc })),
            Some((Ok((range, st2, err)), s2)) => Some((Some(range), LinesAcc { state: st2, opt_error: err_update_spec(err, acc.opt_error), store: s2, ..acc })),
        }
    } else {
        let ind = acc.store.indent;
        match skip_indent(c, ind.indent, ind.tab_spaces) {
            None => Some((None, acc)),
            Some(c1) => {
                let aligned: Option<(Option<Cursor>, bool, u32)> = if acc.first && ind.align_first {
                    match align_indent(c1, ind.indent, ind.tab_spaces) {
                        None => None,
                        Some((c2, indent2)) => Some((Some(c2), false, indent2)),
                    }
                } else if is_prefix(seq![32u8], c1.bytes) {
                    Some((None, acc.first, ind.indent))
                } else {
                    Some((Some(c1), acc.first, ind.indent))
                };
                match aligned {
                    None => None,
                    Some((None, first2, _)) => Some((None, LinesAcc { first: first2, ..acc })),
                    Some((Some(c2), first2, old_indent)) => if old_indent as int + 1 > u32::MAX {
                        None
                    } else {
                        let store1 = Store { indent: IndentSettings { indent: (old_indent + 1) as u32, ..ind }, ..acc.store };
                        match parse_rule(*l.rule, refs, c2, acc.state, store1, fuel) {
                            None => None,
                            Some((Err(e), s2)) => Some((None, LinesAcc {
                                opt_error: err_update_spec(Some(e), acc.opt_error),
                                first: first2,
                                store: Store { indent: IndentSettings { indent: old_indent, ..s2.indent }, ..s2 },
                                ..acc
                            })),
                            Some((Ok((range, st2, err)), s2)) => if end_of(range) < c.offset || end_of(range) > usize::MAX {
                                None
                            } else {
                                Some((Some(Range { offset: c.offset as usize, length: (end_of(range) - c.offset) as usize, data: () }), LinesAcc {
                                    state: st2,
                                    opt_error: err_update_spec(err, acc.opt_error),
                                    first: first2,
                                    store: Store { indent: IndentSettings { indent: old_indent, ..s2.indent }, ..s2 },
                                }))
                            },
                        }
                    },
                }
            },
        }
    }
}

/// The outcome of reading lines when they are done: the range, or the
/// range where a new line was expected.
pub open spec fn lines_done(l: LinesV, r: Result<Range, Range>, acc: LinesAcc) -> (ResV, Store) {
    match r {
        Ok(range) => (Ok((range, acc.state, acc.opt_error)), acc.store),
        Err(range) => (Err(ret_err_spec(err_at(range, ParseErrorV::ExpectedNewLine(l.debug_id)), acc.opt_error)), acc.store),
    }
}

/// Reading lines at `c`, where the reading started at `start`;
/// `new_lines` tells whether a new line came since the last item.
pub open spec fn lines_loop(l: LinesV, refs: Seq<RuleV>, start: Cursor, c: Cursor, new_lines: bool, acc: LinesAcc, fuel: nat) -> Step
    decreases fuel, 2nat,
{
    if fuel == 0 {
        None
    } else {
        let (kind, last) = line_scan(c.bytes, 0, 0);
        match kind {
            LineStart::End => Some(lines_done(l, Ok(Range { offset: start.offset as usize, length: (c.offset + last - start.offset) as usize, data: () }), acc)),
            LineStart::NewLine => if !c.can_consume(last + 1) {
                None
            } else {
                lines_loop(l, refs, start, c.consume(last + 1), true, acc, (fuel - 1) as nat)
            },
            LineStart::Content => if !new_lines {
                Some(lines_done(l, Err(c.start()), acc))
            } else {
                match line_item(l, refs, c, acc, fuel) {
                    None => None,
                    Some((None, acc2)) => Some(lines_done(l, Ok(Range { offset: start.offset as usize, length: (c.offset - start.offset) as usize, data: () }), acc2)),
                    Some((Some(range), acc2)) => {
                        let end = end_of(range) - c.offset;
                        if end_of(range) > usize::MAX || !c.can_consume(end) || !c.can_consume(range.length as int) {
                            None
                        } else {
                            lines_loop(l, refs, start, c.consume(range.length as int), ends_with_newline(c.bytes.subrange(0, end), false), acc2, (fuel - 1) as nat)
                        }
                    },
                }
            },
        }
    }
}

/// Reading lines.
pub open spec fn lines_step(l: LinesV, refs: Seq<RuleV>, c: Cursor, st: usize, s: Store, fuel: nat) -> Step
    decreases fuel, 3nat,
{
    lines_loop(l, refs, c, c, true, LinesAcc { state: st, opt_error: None, first: true, store: s }, fuel)
}

/// Whether reading `rule` at `c` ends without panic for some fuel.
pub open spec fn parse_ends(rule: RuleV, refs: Seq<RuleV>, c: Cursor, st: usize, s: Store) -> bool {
    exists|fuel: nat| #[trigger] parse_rule(rule, refs, c, st, s, fuel) is Some
}

/// The fuel that reading `rule` at `c` is measured with.
pub open spec fn enough_fuel(rule: RuleV, refs: Seq<RuleV>, c: Cursor, st: usize, s: Store) -> nat {
    choose|fuel: nat| #[trigger] parse_rule(rule, refs, c, st, s, fuel) is Some
}

/// The outcome of reading `rule` at `c`, where the reading ends.
pub open spec fn parse_outcome(rule: RuleV, refs: Seq<RuleV>, c: Cursor, st: usize, s: Store) -> (ResV, Store) {
    parse_rule(rule, refs, c, st, s, enough_fuel(rule, refs, c, st, s)).unwrap()
}

} // verus!
