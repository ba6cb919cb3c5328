//! Repeating a rule separated by another rule.

use vstd::prelude::*;
use vstd::utf8::*;
use crate::range::Range;
use crate::read_token::{ReadToken, lemma_consume_wf};
use crate::parse_error::{ParseError, opt_err_view};
use crate::tokenizer::{TokenizerState};
use crate::{DebugId, MetaData};
use super::{Rule, RuleV, SeparateByV, rules_view, ParseResult, IndentSettings, update, err_update, ret_err};
use super::semantics::{store_of, res_view, separate_by_loop, parse_ends, enough_fuel, parse_outcome};

verus! {

/// Stores information about separated by.
#[derive(Debug, PartialEq)]
pub struct SeparateBy {
    /// The rule to separate.
    pub rule: Rule,
    /// The rule to separate by.
    pub by: Rule,
    /// Whether the rule must occur at least once.
    pub optional: bool,
    /// Whether the rule can end with separator.
    pub allow_trail: bool,
    /// A debug id to track down the rule generating an error.
    pub debug_id: DebugId,
}

impl SeparateBy {
    /// Parses rule repeatedly separated by another rule.
    pub fn parse(
        &self,
        tokens: &mut Vec<Range<MetaData>>,
        state: &TokenizerState,
        read_token: &ReadToken,
        refs: &[Rule],
        indent_settings: &mut IndentSettings,
    ) -> (res: ParseResult<TokenizerState>)
        requires
            read_token@.wf(),
            parse_ends(RuleV::SeparateBy(self@), rules_view(refs@), read_token@, state.0, store_of(old(tokens)@, *old(indent_settings))),
        ensures
            (res_view(res), store_of(final(tokens)@, *final(indent_settings))) == parse_outcome(RuleV::SeparateBy(self@), rules_view(refs@), read_token@, state.0, store_of(old(tokens)@, *old(indent_settings))),
    {
        let ghost fuel = enough_fuel(RuleV::SeparateBy(self@), rules_view(refs@), read_token@, state.0, store_of(tokens@, *indent_settings));
        self.parse_fuel(tokens, state, read_token, refs, indent_settings, Ghost((fuel - 1) as nat))
    }

    pub(crate) fn parse_fuel(
        &self,
        tokens: &mut Vec<Range<MetaData>>,
        state: &TokenizerState,
        read_token: &ReadToken,
        refs: &[Rule],
        indent_settings: &mut IndentSettings,
        Ghost(fuel): Ghost<nat>,
    ) -> (res: ParseResult<TokenizerState>)
        requires
            read_token@.wf(),
            separate_by_loop(self@, rules_view(refs@), read_token@, read_token@, state.0, store_of(old(tokens)@, *old(indent_settings)), true, None, fuel) is Some,
        ensures
            (res_view(res), store_of(final(tokens)@, *final(indent_settings))) == separate_by_loop(self@, rules_view(refs@), read_token@, read_token@, state.0, store_of(old(tokens)@, *old(indent_settings)), true, None, fuel)->0,
        decreases fuel, 1nat,
    {
        let ghost refs_v = rules_view(refs@);
        let ghost total = separate_by_loop(self@, refs_v, read_token@, read_token@, state.0, store_of(tokens@, *indent_settings), true, None, fuel);
        let start = *read_token;
        let mut rt = *read_token;
        let mut st = *state;
        let mut first = true;
        let mut opt_error: Option<Range<ParseError>> = None;
        let ghost mut g: nat = fuel;
        loop
            invariant
                refs_v == rules_view(refs@),
                rt@.wf(),
                total == separate_by_loop(self@, refs_v, read_token@, read_token@, state.0, store_of(old(tokens)@, *old(indent_settings)), true, None, fuel),
                start.offset <= rt.offset,
                start == *read_token,
                g <= fuel,
                total is Some,
                separate_by_loop(self@, refs_v, start@, rt@, st.0, store_of(tokens@, *indent_settings), first, opt_err_view(opt_error), g) == total,
            decreases g,
        {
            match self.rule.parse_fuel(tokens, &st, &rt, refs, indent_settings, Ghost(g)) {
                Err(err) => {
                    if (first && !self.optional) || (!first && !self.allow_trail) {
                        return Err(ret_err(err, opt_error));
                    } else {
                        err_update(Some(err), &mut opt_error);
                        return Ok((rt.subtract(&start), st, opt_error));
                    }
                },
                Ok((range, s, err)) => {
                    proof {
                        lemma_consume_wf(rt@, range.length as int);
                    }
                    update(range, err, &mut rt, &mut opt_error);
                    st = s;
                },
            }
            match self.by.parse_fuel(tokens, &st, &rt, refs, indent_settings, Ghost(g)) {
                Err(err) => {
                    err_update(Some(err), &mut opt_error);
                    return Ok((rt.subtract(&start), st, opt_error));
                },
                Ok((range, s, err)) => {
                    proof {
                        lemma_consume_wf(rt@, range.length as int);
                    }
                    update(range, err, &mut rt, &mut opt_error);
                    st = s;
                },
            }
            first = false;
            proof {
                g = (g - 1) as nat;
            }
        }
    }
}

impl View for SeparateBy {
    type V = SeparateByV;

    open spec fn view(&self) -> SeparateByV {
        SeparateByV { rule: Box::new(self.rule@), by: Box::new(self.by@), optional: self.optional, allow_trail: self.allow_trail, debug_id: self.debug_id }
    }
}

impl Clone for SeparateBy {
    fn clone(&self) -> (r: Self)
        ensures
            r@ == self@,
        decreases self,
    {
        SeparateBy { rule: self.rule.clone(), by: self.by.clone(), optional: self.optional, allow_trail: self.allow_trail, debug_id: self.debug_id }
    }
}

} // verus!
