//! Building blocks for meta rules.

pub use self::fast_select::FastSelect;
pub use self::indent_settings::IndentSettings;
pub use self::lines::Lines;
pub use self::node::Node;
pub use self::not::Not;
pub use self::number::Number;
pub use self::optional::Optional;
pub use self::repeat::Repeat;
pub use self::rule::{Rule, RuleV, TokenV, UntilAnyV, TextV, NumberV, SelectV, FastSelectV, SequenceV, SeparateByV, RepeatV, LinesV, NodeV, OptionalV, NotV, name_view, rules_view, lemma_rules_view, lemma_rules_view_eq, clone_rules, find_name, refs_updated, args_updated, lemma_args_updated, lemma_find_name, lemma_refs_updated_twice, lemma_args_updated_twice};
pub use self::select::Select;
pub use self::separate_by::SeparateBy;
pub use self::sequence::Sequence;
pub use self::text::Text;
pub use self::token::{Tag, Token};
pub use self::until_any::UntilAny;
pub use self::until_any_or_whitespace::UntilAnyOrWhitespace;
pub use self::whitespace::Whitespace;

use vstd::prelude::*;
use vstd::string::StringSliceAdditionalSpecFns;
use crate::range::Range;
use crate::read_token::ReadToken;
use crate::parse_error::{ParseError, ParseErrorV, opt_err_view, err_view};
use crate::tokenizer::{TokenizerState, toks_view};
use crate::{MetaData, Syntax};
use crate::read_token::Cursor;
use self::rule::update_args;
use self::semantics::{err_update_spec, ret_err_spec, end_of, Toks, Store, parse_ends, parse_outcome};

mod fast_select;
mod indent_settings;
mod lines;
mod node;
mod not;
mod number;
mod optional;
mod repeat;
mod rule;
mod select;
mod separate_by;
mod sequence;
mod text;
mod token;
mod until_any;
mod until_any_or_whitespace;
mod whitespace;
pub mod semantics;
pub mod laws;
pub mod kept_tokens;
pub mod references;
pub mod range_end;
pub mod store_alike;
pub mod outcome_laws;

verus! {

/// A parse result succeeds with a new state,
/// plus an optional error to replace other errors if it is deeper.
/// The deepest error is likely the most useful.
pub type ParseResult<S> = Result<(Range, S, Option<Range<ParseError>>), Range<ParseError>>;

/// The indentation settings that reading a document starts with.
pub open spec fn default_indent() -> IndentSettings {
    IndentSettings { indent: 0, align_first: true, tab_spaces: 4 }
}

/// The tokens up to a tokenizer state.
pub open spec fn truncated(tokens: Toks, st: usize) -> Toks {
    if (st as int) < tokens.len() { tokens.subrange(0, st as int) } else { tokens }
}

/// Whether reading a document with the last of `rules` ends.
pub open spec fn parse_doc_ends(rules: Seq<RuleV>, text: Seq<u8>, tokens: Toks) -> bool {
    rules.len() > 0 ==> parse_ends(rules.last(), rules, Cursor { bytes: text, offset: 0 }, tokens.len() as usize, Store { tokens, indent: default_indent() })
}

/// Reading a document with the last of `rules`, the tokens read being
/// appended to `tokens`: the result and the tokens after it.
/// The document must be read to its end.
pub open spec fn parse_doc(rules: Seq<RuleV>, text: Seq<u8>, tokens: Toks) -> (Result<(), Range<ParseErrorV>>, Toks) {
    if rules.len() == 0 {
        (Err(Range { offset: 0, length: 0, data: ParseErrorV::NoRules }), tokens)
    } else {
        let (res, store) = parse_outcome(rules.last(), rules, Cursor { bytes: text, offset: 0 }, tokens.len() as usize, Store { tokens, indent: default_indent() });
        match res {
            Ok((range, st, opt_error)) => if end_of(range) < text.len() {
                (Err(ret_err_spec(Range { offset: end_of(range) as usize, length: 0, data: ParseErrorV::ExpectedEnd }, opt_error)), store.tokens)
            } else {
                (Ok(()), truncated(store.tokens, st))
            },
            Err(e) => (Err(e), store.tokens),
        }
    }
}

/// The view of a document's parse result.
pub open spec fn doc_res_view(r: Result<(), Range<ParseError>>) -> Result<(), Range<ParseErrorV>> {
    match r {
        Ok(()) => Ok(()),
        Err(e) => Err(err_view(e)),
    }
}

/// Parses text with rules.
pub fn parse(rules: &Syntax, text: &str, tokens: &mut Vec<Range<MetaData>>) -> (res: Result<(), Range<ParseError>>)
    requires
        parse_doc_ends(rules@.rules, text.spec_bytes(), toks_view(old(tokens)@)),
    ensures
        (doc_res_view(res), toks_view(final(tokens)@)) == parse_doc(rules@.rules, text.spec_bytes(), toks_view(old(tokens)@)),
{
    broadcast use vstd::utf8::encode_utf8_valid_utf8;
    let text_len = text.as_bytes().len();
    let s = TokenizerState(tokens.len());
    let n = rules.rules.len();
    proof {
        lemma_rules_view(rules.rules@);
    }
    if n == 0 {
        return Err(Range::empty(0).wrap(ParseError::NoRules));
    }
    let read_token = ReadToken::new(text, 0);
    let mut indent_settings = IndentSettings { indent: 0, align_first: true, tab_spaces: 4 };
    proof {
        assert(rules_view(rules.rules@).last() == rules.rules@[n - 1]@);
        assert(toks_view(tokens@).len() == tokens@.len());
    }
    let res = rules.rules[n - 1].parse(tokens, &s, &read_token, rules.rules.as_slice(), &mut indent_settings);
    match res {
        Ok((range, s2, opt_error)) => {
            match range.offset.checked_add(range.length) {
                Some(next) if next < text_len => {
                    Err(ret_err(Range::empty(next).wrap(ParseError::ExpectedEnd), opt_error))
                },
                _ => {
                    let ghost before = tokens@;
                    if s2.0 < tokens.len() {
                        tokens.truncate(s2.0);
                    }
                    proof {
                        assert(toks_view(tokens@) =~= truncated(toks_view(before), s2.0));
                    }
                    Ok(())
                },
            }
        },
        Err(range_err) => Err(range_err),
    }
}

/// Updates the references such that they point to each other.
pub fn update_refs(syntax: &mut Syntax)
    ensures
        final(syntax)@.names == old(syntax)@.names,
        final(syntax)@.rules == args_updated(old(syntax)@.rules, old(syntax)@.names),
{
    update_args(&mut syntax.rules, syntax.names.as_slice());
}

/// Whether the first range ends no later than the second.
fn ends_no_later<A, B>(a: &Range<A>, b: &Range<B>) -> (r: bool)
    ensures
        r == (end_of(*a) <= end_of(*b)),
{
    (a.offset as u128) + (a.length as u128) <= (b.offset as u128) + (b.length as u128)
}

/// Updates the parser state.
/// Used by rules that have multiple sub rules.
fn update<'a>(
    range: Range,
    err: Option<Range<ParseError>>,
    read_token: &mut ReadToken<'a>,
    opt_error: &mut Option<Range<ParseError>>,
)
    requires
        old(read_token)@.can_consume(range.length as int),
        old(read_token).offset + range.length <= usize::MAX,
    ensures
        final(read_token)@ == old(read_token)@.consume(range.length as int),
        opt_err_view(*final(opt_error)) == err_update_spec(opt_err_view(err), opt_err_view(*old(opt_error))),
{
    *read_token = read_token.consume(range.length);
    err_update(err, opt_error);
}

/// Picks deepest error, overwriting with the newest one if they are
/// equally deep.
fn err_update(err: Option<Range<ParseError>>, opt_error: &mut Option<Range<ParseError>>)
    ensures
        opt_err_view(*final(opt_error)) == err_update_spec(opt_err_view(err), opt_err_view(*old(opt_error))),
{
    match opt_error {
        Some(o) => {
            if let Some(e) = err {
                if ends_no_later(o, &e) {
                    *o = e;
                }
            }
        },
        None => {
            *opt_error = err;
        },
    }
}

/// This is used to pick the deepest error or two alternatives,
/// one from a rule that fails certainly and another that could be optional.
fn ret_err(a: Range<ParseError>, b: Option<Range<ParseError>>) -> (r: Range<ParseError>)
    ensures
        err_view(r) == ret_err_spec(err_view(a), opt_err_view(b)),
{
    if let Some(b) = b {
        if ends_no_later(&b, &a) {
            a
        } else {
            b
        }
    } else {
        a
    }
}

} // verus!
