//! Matching a tag.

use std::sync::Arc;
use vstd::prelude::*;
use vstd::utf8::*;
use crate::range::Range;
use crate::read_token::{ReadToken, share, share_opt};
use crate::parse_error::{ParseError};
use crate::tokenizer::{TokenizerState, read_data, toks_view};
use crate::{DebugId, MetaData};
use super::{TokenV, name_view, ParseResult};
use super::semantics::{res_view, token_step};

verus! {

/// Stores information about a tag to match.
#[derive(Debug, PartialEq)]
pub struct Token {
    /// The text to match against.
    pub text: Arc<String>,
    /// Whether to fail when matching against text.
    pub not: bool,
    /// Whether to set property to true or false (inverted).
    pub inverted: bool,
    /// Which property to set if the tag matches.
    pub property: Option<Arc<String>>,
    /// A debug id to track down the rule generating an error.
    pub debug_id: DebugId,
}

/// The name the rule list uses for a tag rule.
pub type Tag = Token;

impl Token {
    /// Parses the tag.
    /// If the tag is linked to a property, the property will be set.
    /// If the tag is not linked to any property, the same state will be returned.
    pub fn parse(
        &self,
        tokens: &mut Vec<Range<MetaData>>,
        state: &TokenizerState,
        read_token: &ReadToken,
    ) -> (res: ParseResult<TokenizerState>)
        requires
            read_token@.wf(),
        ensures
            (res_view(res), toks_view(final(tokens)@)) == token_step(self@, read_token@, state.0, toks_view(old(tokens)@)),
    {
        if let Some(range) = read_token.tag(self.text.as_str()) {
            if self.not {
                Err(range.wrap(ParseError::DidNotExpectTag(share(&self.text), self.debug_id)))
            } else {
                match &self.property {
                    Some(name) => {
                        let s = read_data(tokens, range.wrap(MetaData::Bool(share(name), !self.inverted)), state);
                        Ok((range, s, None))
                    },
                    None => Ok((range, *state, None)),
                }
            }
        } else {
            if self.not {
                match &self.property {
                    Some(name) => {
                        let range = read_token.start();
                        let s = read_data(tokens, range.wrap(MetaData::Bool(share(name), !self.inverted)), state);
                        Ok((range, s, None))
                    },
                    None => Ok((read_token.start(), *state, None)),
                }
            } else {
                Err(read_token.start().wrap(ParseError::ExpectedTag(share(&self.text), self.debug_id)))
            }
        }
    }
}

impl View for Token {
    type V = TokenV;

    open spec fn view(&self) -> TokenV {
        TokenV { text: self.text@, not: self.not, inverted: self.inverted, property: name_view(self.property), debug_id: self.debug_id }
    }
}

impl Clone for Token {
    fn clone(&self) -> (r: Self)
        ensures
            r@ == self@,
    {
        Token { text: share(&self.text), not: self.not, inverted: self.inverted, property: share_opt(&self.property), debug_id: self.debug_id }
    }
}

} // verus!
