//! Reading a rule if it succeeds.

use vstd::prelude::*;
use vstd::utf8::*;
use crate::range::Range;
use crate::read_token::{ReadToken, lemma_consume_wf};
use crate::parse_error::{ParseError};
use crate::tokenizer::{TokenizerState};
use crate::{DebugId, MetaData};
use super::{Rule, RuleV, OptionalV, rules_view, IndentSettings, update, ret_err};
use super::semantics::{store_of, res_view, optional_step, parse_ends, enough_fuel, parse_outcome};

verus! {

/// Stores information about optional.
#[derive(Debug, PartialEq)]
pub struct Optional {
    /// The optional rule.
    pub rule: Rule,
    /// A debug id to track down the rule generating an error.
    pub debug_id: DebugId,
}

impl Optional {
    /// Parse optional.
    /// Returns the old state if the sub rule fails.
    pub fn parse(
        &self,
        tokens: &mut Vec<Range<MetaData>>,
        state: &TokenizerState,
        read_token: &ReadToken,
        refs: &[Rule],
        indent_settings: &mut IndentSettings,
    ) -> (res: (Range, TokenizerState, Option<Range<ParseError>>))
        requires
            read_token@.wf(),
            parse_ends(RuleV::Optional(self@), rules_view(refs@), read_token@, state.0, store_of(old(tokens)@, *old(indent_settings))),
        ensures
            (res_view(Ok(res)), store_of(final(tokens)@, *final(indent_settings))) == parse_outcome(RuleV::Optional(self@), rules_view(refs@), read_token@, state.0, store_of(old(tokens)@, *old(indent_settings))),
    {
        let ghost fuel = enough_fuel(RuleV::Optional(self@), rules_view(refs@), read_token@, state.0, store_of(tokens@, *indent_settings));
        self.parse_fuel(tokens, state, read_token, refs, indent_settings, Ghost((fuel - 1) as nat))
    }

    pub(crate) fn parse_fuel(
        &self,
        tokens: &mut Vec<Range<MetaData>>,
        state: &TokenizerState,
        read_token: &ReadToken,
        refs: &[Rule],
        indent_settings: &mut IndentSettings,
        Ghost(fuel): Ghost<nat>,
    ) -> (res: (Range, TokenizerState, Option<Range<ParseError>>))
        requires
            read_token@.wf(),
            optional_step(self@, rules_view(refs@), read_token@, state.0, store_of(old(tokens)@, *old(indent_settings)), fuel) is Some,
        ensures
            (res_view(Ok(res)), store_of(final(tokens)@, *final(indent_settings))) == optional_step(self@, rules_view(refs@), read_token@, state.0, store_of(old(tokens)@, *old(indent_settings)), fuel)->0,
        decreases fuel, 1nat,
    {
        let start = *read_token;
        let mut rt = *read_token;
        let mut opt_error: Option<Range<ParseError>> = None;
        match self.rule.parse_fuel(tokens, state, &rt, refs, indent_settings, Ghost(fuel)) {
            Ok((range, s, err)) => {
                proof {
                    lemma_consume_wf(rt@, range.length as int);
                }
                update(range, err, &mut rt, &mut opt_error);
                (rt.subtract(&start), s, opt_error)
            },
            Err(err) => (start.start(), *state, Some(ret_err(err, opt_error))),
        }
    }
}

impl View for Optional {
    type V = OptionalV;

    open spec fn view(&self) -> OptionalV {
        OptionalV { rule: Box::new(self.rule@), debug_id: self.debug_id }
    }
}

impl Clone for Optional {
    fn clone(&self) -> (r: Self)
        ensures
            r@ == self@,
        decreases self,
    {
        Optional { rule: self.rule.clone(), debug_id: self.debug_id }
    }
}

} // verus!
