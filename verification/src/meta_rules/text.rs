//! Reading string literals.

use std::sync::Arc;
use vstd::prelude::*;
use vstd::utf8::*;
use crate::range::Range;
use crate::read_token::{ReadToken, share, share_opt, lemma_string_len};
use crate::parse_error::{ParseError};
use crate::tokenizer::{TokenizerState, read_data, toks_view};
use crate::{DebugId, MetaData};
use super::{TextV, name_view, ParseResult};
use super::semantics::{res_view, text_step};

verus! {

/// Stores information about text.
#[derive(Debug, PartialEq)]
pub struct Text {
    /// Whether to allow empty string.
    pub allow_empty: bool,
    /// Which property to set if text is read.
    pub property: Option<Arc<String>>,
    /// A debug id to track down the rule generating an error.
    pub debug_id: DebugId,
}

impl Text {
    /// Parses a string literal.
    pub fn parse(
        &self,
        tokens: &mut Vec<Range<MetaData>>,
        state: &TokenizerState,
        read_token: &ReadToken,
    ) -> (res: ParseResult<TokenizerState>)
        requires
            read_token@.wf(),
        ensures
            (res_view(res), toks_view(final(tokens)@)) == text_step(self@, read_token@, state.0, toks_view(old(tokens)@)),
    {
        proof {
            lemma_string_len(read_token@.bytes);
        }
        if let Some(range) = read_token.string() {
            if !self.allow_empty && range.length == 2 {
                Err(range.wrap(ParseError::EmptyTextNotAllowed(self.debug_id)))
            } else {
                match read_token.parse_string(range.length) {
                    Err(range_err) => Err(Range::new(range_err.offset, range_err.length).wrap(ParseError::ParseStringError(range_err.data, self.debug_id))),
                    Ok(text) => match &self.property {
                        Some(property) => {
                            let s = read_data(tokens, range.wrap(MetaData::String(share(property), Arc::new(text))), state);
                            Ok((range, s, None))
                        },
                        None => Ok((range, *state, None)),
                    },
                }
            }
        } else {
            Err(read_token.start().wrap(ParseError::ExpectedText(self.debug_id)))
        }
    }
}

impl View for Text {
    type V = TextV;

    open spec fn view(&self) -> TextV {
        TextV { allow_empty: self.allow_empty, property: name_view(self.property), debug_id: self.debug_id }
    }
}

impl Clone for Text {
    fn clone(&self) -> (r: Self)
        ensures
            r@ == self@,
    {
        Text { allow_empty: self.allow_empty, property: share_opt(&self.property), debug_id: self.debug_id }
    }
}

} // verus!
