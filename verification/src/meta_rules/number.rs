//! Reading numbers.

use std::sync::Arc;
use vstd::prelude::*;
use vstd::utf8::*;
use crate::range::Range;
use crate::read_token::{ReadToken, share, share_opt, number_error};
use crate::parse_error::{ParseError};
use crate::tokenizer::{TokenizerState, read_data, toks_view};
use crate::{DebugId, MetaData};
use super::{NumberV, name_view, ParseResult};
use super::semantics::{res_view, number_step, number_panics_at, number_fits};

verus! {

/// Contains information about number.
#[derive(Debug, PartialEq)]
pub struct Number {
    /// The property to set.
    pub property: Option<Arc<String>>,
    /// A debug id to track down the rule generating an error.
    pub debug_id: DebugId,
    /// Whether underscore is allowed as visible separator.
    pub allow_underscore: bool,
}

impl Number {
    /// Parses a number.
    pub fn parse(
        &self,
        tokens: &mut Vec<Range<MetaData>>,
        state: &TokenizerState,
        read_token: &ReadToken,
    ) -> (res: ParseResult<TokenizerState>)
        requires
            read_token@.wf(),
            !number_panics_at(self@, read_token@),
        ensures
            number_fits(self@, read_token@),
            (res_view(res), toks_view(final(tokens)@)) == number_step(self@, read_token@, state.0, toks_view(old(tokens)@)),
    {
        if let Some(range) = read_token.number(self.allow_underscore) {
            match read_token.number_error(self.allow_underscore, range.length) {
                Some(err) => Err(range.wrap(ParseError::ParseNumberError(err, self.debug_id))),
                None => match &self.property {
                    Some(property) => {
                        let text = read_token.raw_string(range.length);
                        let s = read_data(tokens, range.wrap(MetaData::F64(share(property), Arc::new(text))), state);
                        Ok((range, s, None))
                    },
                    None => Ok((range, *state, None)),
                },
            }
        } else {
            Err(read_token.start().wrap(ParseError::ExpectedNumber(self.debug_id)))
        }
    }
}

impl View for Number {
    type V = NumberV;

    open spec fn view(&self) -> NumberV {
        NumberV { property: name_view(self.property), debug_id: self.debug_id, allow_underscore: self.allow_underscore }
    }
}

impl Clone for Number {
    fn clone(&self) -> (r: Self)
        ensures
            r@ == self@,
    {
        Number { property: share_opt(&self.property), debug_id: self.debug_id, allow_underscore: self.allow_underscore }
    }
}

} // verus!
