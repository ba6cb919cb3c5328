//! Selecting the first rule that succeeds.

use vstd::prelude::*;
use vstd::utf8::*;
use crate::range::Range;
use crate::read_token::{ReadToken};
use crate::parse_error::{ParseError, opt_err_view};
use crate::tokenizer::{TokenizerState};
use crate::{DebugId, MetaData};
use super::{Rule, RuleV, SelectV, rules_view, lemma_rules_view, clone_rules, ParseResult, IndentSettings, err_update};
use super::semantics::{store_of, res_view, select_loop, parse_ends, enough_fuel, parse_outcome};

verus! {

/// Stores information about select.
#[derive(Debug, PartialEq)]
pub struct Select {
    /// The rules to select from.
    pub args: Vec<Rule>,
    /// A debug id to track down the rule generating an error.
    pub debug_id: DebugId,
}

impl Select {
    /// Parses select: the first sub rule that succeeds.
    pub fn parse(
        &self,
        tokens: &mut Vec<Range<MetaData>>,
        state: &TokenizerState,
        read_token: &ReadToken,
        refs: &[Rule],
        indent_settings: &mut IndentSettings,
    ) -> (res: ParseResult<TokenizerState>)
        requires
            read_token@.wf(),
            parse_ends(RuleV::Select(self@), rules_view(refs@), read_token@, state.0, store_of(old(tokens)@, *old(indent_settings))),
        ensures
            (res_view(res), store_of(final(tokens)@, *final(indent_settings))) == parse_outcome(RuleV::Select(self@), rules_view(refs@), read_token@, state.0, store_of(old(tokens)@, *old(indent_settings))),
    {
        let ghost fuel = enough_fuel(RuleV::Select(self@), rules_view(refs@), read_token@, state.0, store_of(tokens@, *indent_settings));
        self.parse_fuel(tokens, state, read_token, refs, indent_settings, Ghost((fuel - 1) as nat))
    }

    pub(crate) fn parse_fuel(
        &self,
        tokens: &mut Vec<Range<MetaData>>,
        state: &TokenizerState,
        read_token: &ReadToken,
        refs: &[Rule],
        indent_settings: &mut IndentSettings,
        Ghost(fuel): Ghost<nat>,
    ) -> (res: ParseResult<TokenizerState>)
        requires
            read_token@.wf(),
            select_loop(self@.args, self.debug_id, rules_view(refs@), read_token@, state.0, store_of(old(tokens)@, *old(indent_settings)), 0, None, fuel) is Some,
        ensures
            (res_view(res), store_of(final(tokens)@, *final(indent_settings))) == select_loop(self@.args, self.debug_id, rules_view(refs@), read_token@, state.0, store_of(old(tokens)@, *old(indent_settings)), 0, None, fuel)->0,
        decreases fuel, 1nat,
    {
        let ghost args = self@.args;
        let ghost refs_v = rules_view(refs@);
        let ghost total = select_loop(args, self.debug_id, refs_v, read_token@, state.0, store_of(tokens@, *indent_settings), 0, None, fuel);
        proof {
            lemma_rules_view(self.args@);
        }
        let mut opt_error: Option<Range<ParseError>> = None;
        let mut i: usize = 0;
        while i < self.args.len()
            invariant
                i <= self.args.len(),
                args == rules_view(self.args@),
                args.len() == self.args@.len(),
                forall|j: int| 0 <= j < self.args@.len() ==> #[trigger] args[j] == self.args@[j]@,
                refs_v == rules_view(refs@),
                read_token@.wf(),
                total == select_loop(args, self.debug_id, refs_v, read_token@, state.0, store_of(old(tokens)@, *old(indent_settings)), 0, None, fuel),
                total is Some,
                select_loop(args, self.debug_id, refs_v, read_token@, state.0, store_of(tokens@, *indent_settings), i as int, opt_err_view(opt_error), fuel) == total,
            decreases self.args.len() - i,
        {
            match self.args[i].parse_fuel(tokens, state, read_token, refs, indent_settings, Ghost(fuel)) {
                Ok((range, s, err)) => {
                    err_update(err, &mut opt_error);
                    return Ok((read_token.peek(range.length), s, opt_error));
                },
                Err(err) => {
                    err_update(Some(err), &mut opt_error);
                },
            }
            i = i + 1;
        }
        match opt_error {
            None => Err(read_token.start().wrap(ParseError::InvalidRule("`Select` requires at least one sub rule", self.debug_id))),
            Some(err) => Err(err),
        }
    }
}

impl View for Select {
    type V = SelectV;

    open spec fn view(&self) -> SelectV {
        SelectV { args: rules_view(self.args@), debug_id: self.debug_id }
    }
}

impl Clone for Select {
    fn clone(&self) -> (r: Self)
        ensures
            r@ == self@,
        decreases self,
    {
        Select { args: clone_rules(&self.args), debug_id: self.debug_id }
    }
}

} // verus!
