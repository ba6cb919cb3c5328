//! Failing when a rule succeeds.

use std::sync::Arc;
use vstd::prelude::*;
use vstd::utf8::*;
use crate::range::Range;
use crate::read_token::{ReadToken};
use crate::parse_error::{ParseError};
use crate::tokenizer::{TokenizerState};
use crate::{DebugId, MetaData};
use super::{Rule, RuleV, NotV, rules_view, ParseResult, IndentSettings};
use super::semantics::{store_of, res_view, not_step, parse_ends, enough_fuel, parse_outcome};

verus! {

/// Stores information about not.
#[derive(Debug, PartialEq)]
pub struct Not {
    /// The not rule.
    pub rule: Rule,
    /// A debug id to track down the rule generating an error.
    pub debug_id: DebugId,
}

impl Not {
    /// Parse not. Fails if the sub rule succeeds.
    pub fn parse(
        &self,
        tokens: &mut Vec<Range<MetaData>>,
        state: &TokenizerState,
        read_token: &ReadToken,
        refs: &[Rule],
        indent_settings: &mut IndentSettings,
    ) -> (res: ParseResult<TokenizerState>)
        requires
            read_token@.wf(),
            parse_ends(RuleV::Not(self@), rules_view(refs@), read_token@, state.0, store_of(old(tokens)@, *old(indent_settings))),
        ensures
            (res_view(res), store_of(final(tokens)@, *final(indent_settings))) == parse_outcome(RuleV::Not(self@), rules_view(refs@), read_token@, state.0, store_of(old(tokens)@, *old(indent_settings))),
    {
        let ghost fuel = enough_fuel(RuleV::Not(self@), rules_view(refs@), read_token@, state.0, store_of(tokens@, *indent_settings));
        self.parse_fuel(tokens, state, read_token, refs, indent_settings, Ghost((fuel - 1) as nat))
    }

    pub(crate) fn parse_fuel(
        &self,
        tokens: &mut Vec<Range<MetaData>>,
        state: &TokenizerState,
        read_token: &ReadToken,
        refs: &[Rule],
        indent_settings: &mut IndentSettings,
        Ghost(fuel): Ghost<nat>,
    ) -> (res: ParseResult<TokenizerState>)
        requires
            read_token@.wf(),
            not_step(self@, rules_view(refs@), read_token@, state.0, store_of(old(tokens)@, *old(indent_settings)), fuel) is Some,
        ensures
            (res_view(res), store_of(final(tokens)@, *final(indent_settings))) == not_step(self@, rules_view(refs@), read_token@, state.0, store_of(old(tokens)@, *old(indent_settings)), fuel)->0,
        decreases fuel, 1nat,
    {
        match self.rule.parse_fuel(tokens, state, read_token, refs, indent_settings, Ghost(fuel)) {
            Ok((range, _, _)) => {
                let text = read_token.raw_string(range.length);
                Err(range.wrap(ParseError::DidNotExpectTag(Arc::new(text), self.debug_id)))
            },
            Err(_) => Ok((read_token.start(), *state, None)),
        }
    }
}

impl View for Not {
    type V = NotV;

    open spec fn view(&self) -> NotV {
        NotV { rule: Box::new(self.rule@), debug_id: self.debug_id }
    }
}

impl Clone for Not {
    fn clone(&self) -> (r: Self)
        ensures
            r@ == self@,
        decreases self,
    {
        Not { rule: self.rule.clone(), debug_id: self.debug_id }
    }
}

} // verus!
