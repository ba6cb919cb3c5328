//! Repeating a rule.

use vstd::prelude::*;
use vstd::utf8::*;
use crate::range::Range;
use crate::read_token::{ReadToken, lemma_consume_wf};
use crate::parse_error::{ParseError, opt_err_view};
use crate::tokenizer::{TokenizerState};
use crate::{DebugId, MetaData};
use super::{Rule, RuleV, RepeatV, rules_view, ParseResult, IndentSettings, update, err_update, ret_err};
use super::semantics::{store_of, res_view, repeat_loop, parse_ends, enough_fuel, parse_outcome};

verus! {

/// Stores information about repeat.
#[derive(Debug, PartialEq)]
pub struct Repeat {
    /// The rule to repeat.
    pub rule: Rule,
    /// Whether the rule may occur zero times.
    pub optional: bool,
    /// A debug id to track down the rule generating an error.
    pub debug_id: DebugId,
}

impl Repeat {
    /// Parses rule repeatedly.
    pub fn parse(
        &self,
        tokens: &mut Vec<Range<MetaData>>,
        state: &TokenizerState,
        read_token: &ReadToken,
        refs: &[Rule],
        indent_settings: &mut IndentSettings,
    ) -> (res: ParseResult<TokenizerState>)
        requires
            read_token@.wf(),
            parse_ends(RuleV::Repeat(self@), rules_view(refs@), read_token@, state.0, store_of(old(tokens)@, *old(indent_settings))),
        ensures
            (res_view(res), store_of(final(tokens)@, *final(indent_settings))) == parse_outcome(RuleV::Repeat(self@), rules_view(refs@), read_token@, state.0, store_of(old(tokens)@, *old(indent_settings))),
    {
        let ghost fuel = enough_fuel(RuleV::Repeat(self@), rules_view(refs@), read_token@, state.0, store_of(tokens@, *indent_settings));
        self.parse_fuel(tokens, state, read_token, refs, indent_settings, Ghost((fuel - 1) as nat))
    }

    pub(crate) fn parse_fuel(
        &self,
        tokens: &mut Vec<Range<MetaData>>,
        state: &TokenizerState,
        read_token: &ReadToken,
        refs: &[Rule],
        indent_settings: &mut IndentSettings,
        Ghost(fuel): Ghost<nat>,
    ) -> (res: ParseResult<TokenizerState>)
        requires
            read_token@.wf(),
            repeat_loop(self@, rules_view(refs@), read_token@, read_token@, state.0, store_of(old(tokens)@, *old(indent_settings)), true, None, fuel) is Some,
        ensures
            (res_view(res), store_of(final(tokens)@, *final(indent_settings))) == repeat_loop(self@, rules_view(refs@), read_token@, read_token@, state.0, store_of(old(tokens)@, *old(indent_settings)), true, None, fuel)->0,
        decreases fuel, 1nat,
    {
        let ghost refs_v = rules_view(refs@);
        let ghost total = repeat_loop(self@, refs_v, read_token@, read_token@, state.0, store_of(tokens@, *indent_settings), true, None, fuel);
        let start = *read_token;
        let mut rt = *read_token;
        let mut st = *state;
        let mut opt_error: Option<Range<ParseError>> = None;
        let mut first = true;
        let ghost mut g: nat = fuel;
        loop
            invariant
                refs_v == rules_view(refs@),
                rt@.wf(),
                total == repeat_loop(self@, refs_v, read_token@, read_token@, state.0, store_of(old(tokens)@, *old(indent_settings)), true, None, fuel),
                start.offset <= rt.offset,
                start == *read_token,
                g <= fuel,
                total is Some,
                repeat_loop(self@, refs_v, start@, rt@, st.0, store_of(tokens@, *indent_settings), first, opt_err_view(opt_error), g) == total,
            decreases g,
        {
            match self.rule.parse_fuel(tokens, &st, &rt, refs, indent_settings, Ghost(g)) {
                Err(err) => {
                    if first && !self.optional {
                        return Err(ret_err(err, opt_error));
                    } else {
                        err_update(Some(err), &mut opt_error);
                        return Ok((rt.subtract(&start), st, opt_error));
                    }
                },
                Ok((range, s, err)) => {
                    proof {
                        lemma_consume_wf(rt@, range.length as int);
                    }
                    update(range, err, &mut rt, &mut opt_error);
                    st = s;
                },
            }
            first = false;
            proof {
                g = (g - 1) as nat;
            }
        }
    }
}

impl View for Repeat {
    type V = RepeatV;

    open spec fn view(&self) -> RepeatV {
        RepeatV { rule: Box::new(self.rule@), optional: self.optional, debug_id: self.debug_id }
    }
}

impl Clone for Repeat {
    fn clone(&self) -> (r: Self)
        ensures
            r@ == self@,
        decreases self,
    {
        Repeat { rule: self.rule.clone(), optional: self.optional, debug_id: self.debug_id }
    }
}

} // verus!
