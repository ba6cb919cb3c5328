//! Reading until any of some characters.

use std::sync::Arc;
use vstd::prelude::*;
use vstd::utf8::*;
use crate::range::Range;
use crate::read_token::{ReadToken, share, share_opt, lemma_prefix_while};
use crate::parse_error::{ParseError};
use crate::tokenizer::{TokenizerState, read_data, toks_view};
use crate::{DebugId, MetaData};
use super::{UntilAnyV, name_view, ParseResult};
use super::semantics::{res_view, until_any_step};

verus! {

/// Stores information about reading until any of some characters.
#[derive(Debug, PartialEq)]
pub struct UntilAny {
    /// The characters to stop at.
    pub any_characters: Arc<String>,
    /// Whether empty data is accepted or not.
    pub optional: bool,
    /// The property to store read text.
    pub property: Option<Arc<String>>,
    /// A debug id to track down the rule generating an error.
    pub debug_id: DebugId,
}

impl UntilAny {
    /// Parses until any of the characters to stop at.
    pub fn parse(
        &self,
        tokens: &mut Vec<Range<MetaData>>,
        state: &TokenizerState,
        read_token: &ReadToken,
    ) -> (res: ParseResult<TokenizerState>)
        requires
            read_token@.wf(),
        ensures
            (res_view(res), toks_view(final(tokens)@)) == until_any_step(self@, read_token@, state.0, toks_view(old(tokens)@)),
    {
        let range = read_token.until_any(self.any_characters.as_str());
        proof {
            lemma_prefix_while(read_token@.bytes, |c: char| !self@.any_characters.contains(c));
        }
        if range.length == 0 && !self.optional {
            Err(range.wrap(ParseError::ExpectedSomething(self.debug_id)))
        } else {
            match &self.property {
                Some(property) => {
                    let text = read_token.raw_string(range.length);
                    let s = read_data(tokens, range.wrap(MetaData::String(share(property), Arc::new(text))), state);
                    Ok((range, s, None))
                },
                None => Ok((range, *state, None)),
            }
        }
    }
}

impl View for UntilAny {
    type V = UntilAnyV;

    open spec fn view(&self) -> UntilAnyV {
        UntilAnyV { any_characters: self.any_characters@, optional: self.optional, property: name_view(self.property), debug_id: self.debug_id }
    }
}

impl Clone for UntilAny {
    fn clone(&self) -> (r: Self)
        ensures
            r@ == self@,
    {
        UntilAny { any_characters: share(&self.any_characters), optional: self.optional, property: share_opt(&self.property), debug_id: self.debug_id }
    }
}

} // verus!
