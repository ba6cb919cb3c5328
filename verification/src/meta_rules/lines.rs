//! Reading a rule on separate lines.

use vstd::prelude::*;
use vstd::utf8::*;
use crate::range::Range;
use crate::read_token::{ReadToken, Cursor, is_whitespace, char_is_whitespace, head_char, head_len, tail, is_prefix, lemma_boundary_range, lemma_consume_wf, lemma_head};
use crate::parse_error::{ParseError, opt_err_view};
use crate::tokenizer::{TokenizerState};
use crate::{DebugId, MetaData};
use super::{Rule, RuleV, LinesV, rules_view, ParseResult, IndentSettings, err_update, ret_err};
use super::semantics::{store_of, res_view, LineStart, line_scan, ends_with_newline, skip_indent, align_indent, LinesAcc, line_item, lines_loop, lines_step, parse_ends, enough_fuel, parse_outcome};

verus! {

/// Stores information about lines.
#[derive(Debug, PartialEq)]
pub struct Lines {
    /// The rule to read lines.
    /// This can be a multi-line rule.
    pub rule: Rule,
    /// A debug id to track down the rule generating an error.
    pub debug_id: DebugId,
    /// Whether to increase indention.
    pub indent: bool,
}

impl Lines {
    /// Parses rule separated by one or more lines.
    /// Ignores lines that only contain whitespace characters.
    pub fn parse(
        &self,
        tokens: &mut Vec<Range<MetaData>>,
        state: &TokenizerState,
        read_token: &ReadToken,
        refs: &[Rule],
        indent_settings: &mut IndentSettings,
    ) -> (res: ParseResult<TokenizerState>)
        requires
            read_token@.wf(),
            parse_ends(RuleV::Lines(self@), rules_view(refs@), read_token@, state.0, store_of(old(tokens)@, *old(indent_settings))),
        ensures
            (res_view(res), store_of(final(tokens)@, *final(indent_settings))) == parse_outcome(RuleV::Lines(self@), rules_view(refs@), read_token@, state.0, store_of(old(tokens)@, *old(indent_settings))),
    {
        let ghost fuel = enough_fuel(RuleV::Lines(self@), rules_view(refs@), read_token@, state.0, store_of(tokens@, *indent_settings));
        self.parse_fuel(tokens, state, read_token, refs, indent_settings, Ghost((fuel - 1) as nat))
    }

    pub(crate) fn parse_fuel(
        &self,
        tokens: &mut Vec<Range<MetaData>>,
        state: &TokenizerState,
        read_token: &ReadToken,
        refs: &[Rule],
        indent_settings: &mut IndentSettings,
        Ghost(fuel): Ghost<nat>,
    ) -> (res: ParseResult<TokenizerState>)
        requires
            read_token@.wf(),
            lines_step(self@, rules_view(refs@), read_token@, state.0, store_of(old(tokens)@, *old(indent_settings)), fuel) is Some,
        ensures
            (res_view(res), store_of(final(tokens)@, *final(indent_settings))) == lines_step(self@, rules_view(refs@), read_token@, state.0, store_of(old(tokens)@, *old(indent_settings)), fuel)->0,
        decreases fuel, 3nat,
    {
        let ghost refs_v = rules_view(refs@);
        let ghost total = lines_step(self@, refs_v, read_token@, state.0, store_of(tokens@, *indent_settings), fuel);
        let start = *read_token;
        let mut rt = *read_token;
        let mut new_lines = true;
        let mut st = *state;
        let mut opt_error: Option<Range<ParseError>> = None;
        let mut first = true;
        let ghost mut g: nat = fuel;
        loop
            invariant
                refs_v == rules_view(refs@),
                rt@.wf(),
                start == *read_token,
                total == lines_step(self@, refs_v, read_token@, state.0, store_of(old(tokens)@, *old(indent_settings)), fuel),
                start.offset <= rt.offset,
                g <= fuel,
                total is Some,
                lines_loop(self@, refs_v, start@, rt@, new_lines, LinesAcc { state: st.0, opt_error: opt_err_view(opt_error), first, store: store_of(tokens@, *indent_settings) }, g) == total,
            decreases g,
        {
            let (kind, last) = scan_line_start(&rt);
            proof {
                lemma_line_scan(rt@.bytes, 0, 0);
            }
            match kind {
                LineStart::End => {
                    let range = Range::new(start.offset, rt.offset + last - start.offset);
                    return Ok((range, st, opt_error));
                },
                LineStart::NewLine => {
                    proof {
                        lemma_consume_wf(rt@, last + 1);
                    }
                    rt = rt.consume(last + 1);
                    new_lines = true;
                },
                LineStart::Content => {
                    if !new_lines {
                        return Err(ret_err(rt.start().wrap(ParseError::ExpectedNewLine(self.debug_id)), opt_error));
                    }
                    match self.line_item(tokens, &mut st, &mut opt_error, &mut first, &rt, refs, indent_settings, Ghost(g)) {
                        None => {
                            return Ok((rt.subtract(&start), st, opt_error));
                        },
                        Some(range) => {
                            let end = range.offset + range.length - rt.offset;
                            new_lines = ended_with_newline(&rt, end);
                            proof {
                                lemma_consume_wf(rt@, range.length as int);
                            }
                            rt = rt.consume(range.length);
                        },
                    }
                },
            }
            proof {
                g = (g - 1) as nat;
            }
        }
    }

    /// Reads one line, adjusting the indention when indenting.
    fn line_item(
        &self,
        tokens: &mut Vec<Range<MetaData>>,
        state: &mut TokenizerState,
        opt_error: &mut Option<Range<ParseError>>,
        first: &mut bool,
        read_token: &ReadToken,
        refs: &[Rule],
        indent_settings: &mut IndentSettings,
        Ghost(fuel): Ghost<nat>,
    ) -> (res: Option<Range>)
        requires
            read_token@.wf(),
            line_item(self@, rules_view(refs@), read_token@, LinesAcc { state: old(state).0, opt_error: opt_err_view(*old(opt_error)), first: *old(first), store: store_of(old(tokens)@, *old(indent_settings)) }, fuel) is Some,
        ensures
            (res, LinesAcc { state: final(state).0, opt_error: opt_err_view(*final(opt_error)), first: *final(first), store: store_of(final(tokens)@, *final(indent_settings)) }) == line_item(self@, rules_view(refs@), read_token@, LinesAcc { state: old(state).0, opt_error: opt_err_view(*old(opt_error)), first: *old(first), store: store_of(old(tokens)@, *old(indent_settings)) }, fuel)->0,
        decreases fuel, 2nat,
    {
        if !self.indent {
            match self.rule.parse_fuel(tokens, state, read_token, refs, indent_settings, Ghost(fuel)) {
                Err(err) => {
                    err_update(Some(err), opt_error);
                    None
                },
                Ok((range, new_state, err)) => {
                    err_update(err, opt_error);
                    *state = new_state;
                    Some(range)
                },
            }
        } else {
            let offset = read_token.offset;
            let rt1 = match skip_indent_exec(read_token, indent_settings.indent, indent_settings.tab_spaces) {
                None => {
                    return None;
                },
                Some(rt1) => rt1,
            };
            let rt2;
            if *first && indent_settings.align_first {
                *first = false;
                let (r, indent) = align_indent_exec(&rt1, indent_settings.indent, indent_settings.tab_spaces);
                indent_settings.indent = indent;
                rt2 = r;
            } else {
                if starts_with_byte(&rt1, 32u8) {
                    return None;
                }
                rt2 = rt1;
            }
            let old_indent = indent_settings.indent;
            indent_settings.indent = indent_settings.indent + 1;
            match self.rule.parse_fuel(tokens, state, &rt2, refs, indent_settings, Ghost(fuel)) {
                Err(err) => {
                    indent_settings.indent = old_indent;
                    err_update(Some(err), opt_error);
                    None
                },
                Ok((range, new_state, err)) => {
                    let end = range.offset + range.length;
                    let range = Range::new(offset, end - offset);
                    indent_settings.indent = old_indent;
                    err_update(err, opt_error);
                    *state = new_state;
                    Some(range)
                },
            }
        }
    }
}

/// Whether the text starts with the byte `b`.
fn starts_with_byte(read_token: &ReadToken, b: u8) -> (res: bool)
    ensures
        res == is_prefix(seq![b], read_token@.bytes),
{
    let bytes = read_token.src.as_bytes();
    let r = bytes.len() > 0 && bytes[0] == b;
    proof {
        if bytes@.len() > 0 {
            if bytes@[0] == b {
                assert(bytes@.subrange(0, 1) =~= seq![b]);
            } else {
                assert(bytes@.subrange(0, 1)[0] != seq![b][0]);
            }
        }
    }
    r
}

/// A text that starts with a one byte character can lose it.
proof fn lemma_first_byte(c: Cursor, b: u8)
    requires
        c.wf(),
        is_prefix(seq![b], c.bytes),
        b < 0x80,
    ensures
        c.can_consume(1),
        c.consume(1).wf(),
{
    assert(c.bytes.subrange(0, 1)[0] == c.bytes[0]);
    assert(c.bytes[0] == b);
    lemma_head(c.bytes);
    lemma_consume_wf(c, 1);
}

/// Skips indentation of `n` columns.
fn skip_indent_exec<'a>(read_token: &ReadToken<'a>, columns: u32, tab_spaces: u32) -> (res: Option<ReadToken<'a>>)
    requires
        read_token@.wf(),
    ensures
        res matches Some(r) ==> skip_indent(read_token@, columns, tab_spaces) == Some(r@) && r@.wf(),
        res is None ==> skip_indent(read_token@, columns, tab_spaces) is None,
{
    let mut rt = *read_token;
    let mut n = columns;
    loop
        invariant
            rt@.wf(),
            skip_indent(rt@, n, tab_spaces) == skip_indent(read_token@, columns, tab_spaces),
        decreases rt@.bytes.len(),
    {
        if n == 0 {
            return Some(rt);
        }
        if starts_with_byte(&rt, 32u8) {
            proof {
                lemma_first_byte(rt@, 32u8);
            }
            rt = rt.consume(1);
            n = n - 1;
        } else if starts_with_byte(&rt, 9u8) {
            proof {
                lemma_first_byte(rt@, 9u8);
            }
            rt = rt.consume(1);
            if n <= tab_spaces {
                return Some(rt);
            } else {
                n = n - tab_spaces;
            }
        } else {
            return None;
        }
    }
}

/// Reads the indentation of a first line, adding it to the indention.
fn align_indent_exec<'a>(read_token: &ReadToken<'a>, start_indent: u32, tab_spaces: u32) -> (res: (ReadToken<'a>, u32))
    requires
        read_token@.wf(),
        align_indent(read_token@, start_indent, tab_spaces) is Some,
    ensures
        align_indent(read_token@, start_indent, tab_spaces) == Some((res.0@, res.1)),
        res.0@.wf(),
{
    let mut rt = *read_token;
    let mut indent = start_indent;
    loop
        invariant
            rt@.wf(),
            align_indent(rt@, indent, tab_spaces) == align_indent(read_token@, start_indent, tab_spaces),
            align_indent(rt@, indent, tab_spaces) is Some,
        decreases rt@.bytes.len(),
    {
        if starts_with_byte(&rt, 32u8) {
            proof {
                lemma_first_byte(rt@, 32u8);
            }
            rt = rt.consume(1);
            indent = indent + 1;
        } else if starts_with_byte(&rt, 9u8) {
            proof {
                lemma_first_byte(rt@, 9u8);
            }
            rt = rt.consume(1);
            indent = indent + tab_spaces;
        } else {
            return (rt, indent);
        }
    }
}

/// Reads whitespace at the start of a line: how the line starts, and one
/// past the byte offset of the last whitespace character.
fn scan_line_start(read_token: &ReadToken) -> (res: (LineStart, usize))
    requires
        read_token@.wf(),
    ensures
        (res.0, res.1 as int) == line_scan(read_token@.bytes, 0, 0),
{
    let mut rt = *read_token;
    let mut pos: usize = 0;
    let mut last: usize = 0;
    loop
        invariant
            rt@.wf(),
            pos + rt@.bytes.len() == read_token@.bytes.len(),
            last <= pos,
            read_token.offset + read_token@.bytes.len() <= usize::MAX,
            line_scan(rt@.bytes, pos as int, last as int) == line_scan(read_token@.bytes, 0, 0),
        decreases rt@.bytes.len(),
    {
        match rt.peek_char() {
            None => {
                return (LineStart::End, last);
            },
            Some((c, w)) => {
                if c == '\n' {
                    return (LineStart::NewLine, last);
                }
                if !is_whitespace(c) {
                    return (LineStart::Content, last);
                }
                proof {
                    lemma_head(rt@.bytes);
                    lemma_consume_wf(rt@, w as int);
                }
                last = pos + 1;
                pos = pos + w;
                rt = rt.consume(w);
            },
        }
    }
}

/// Whether the first `end` bytes end with a new line followed by whitespace.
fn ended_with_newline(read_token: &ReadToken, end: usize) -> (res: bool)
    requires
        read_token@.wf(),
        read_token@.can_consume(end as int),
    ensures
        res == ends_with_newline(read_token@.bytes.subrange(0, end as int), false),
{
    broadcast use valid_utf8_split;
    proof {
        lemma_boundary_range(read_token@.bytes, end as int);
    }
    let (prefix, _) = read_token.src.split_at(end);
    let mut rt = ReadToken::new(prefix, 0);
    let mut acc = false;
    loop
        invariant
            rt@.wf(),
            ends_with_newline(rt@.bytes, acc) == ends_with_newline(read_token@.bytes.subrange(0, end as int), false),
        decreases rt@.bytes.len(),
    {
        match rt.peek_char() {
            None => {
                return acc;
            },
            Some((c, w)) => {
                if c == '\n' {
                    acc = true;
                } else if !is_whitespace(c) {
                    acc = false;
                }
                proof {
                    lemma_head(rt@.bytes);
                    lemma_consume_wf(rt@, w as int);
                }
                rt = rt.consume(w);
            },
        }
    }
}

/// The scan of a line start stays within the text.
pub(crate) proof fn lemma_line_scan(b: Seq<u8>, pos: int, last: int)
    requires
        valid_utf8(b),
        0 <= last <= pos,
    ensures
        line_scan(b, pos, last).1 <= pos + b.len(),
        0 <= line_scan(b, pos, last).1,
        line_scan(b, pos, last).0 is End ==> line_scan(b, pos, last).1 <= pos + b.len(),
    decreases b.len(),
{
    if b.len() > 0 {
        lemma_head(b);
        if head_char(b) != '\n' && char_is_whitespace(head_char(b)) {
            lemma_line_scan(tail(b), pos + head_len(b), pos + 1);
        }
    }
}

impl View for Lines {
    type V = LinesV;

    open spec fn view(&self) -> LinesV {
        LinesV { rule: Box::new(self.rule@), debug_id: self.debug_id, indent: self.indent }
    }
}

impl Clone for Lines {
    fn clone(&self) -> (r: Self)
        ensures
            r@ == self@,
        decreases self,
    {
        Lines { rule: self.rule.clone(), debug_id: self.debug_id, indent: self.indent }
    }
}

} // verus!
