//! Selecting a rule by the next byte.

use vstd::prelude::*;
use vstd::utf8::*;
use crate::range::Range;
use crate::read_token::{ReadToken, tail};
use crate::parse_error::{ParseError};
use crate::tokenizer::{TokenizerState};
use crate::{DebugId, MetaData};
use super::{Rule, RuleV, FastSelectV, rules_view, lemma_rules_view, clone_rules, ParseResult, IndentSettings, err_update, ret_err};
use super::semantics::{store_of, res_view, fast_select_step, parse_ends, enough_fuel, parse_outcome};

verus! {

/// Stores information about select with a lookup table.
#[derive(Debug)]
pub struct FastSelect {
    /// The table used to look up sub-rule from next byte.
    pub table: [u8; 256],
    /// The rules to select from using the table.
    /// If `tail` is true, the last rule is used if table lookup fails.
    pub args: Vec<Rule>,
    /// Whether the last rule is used when table lookup fails.
    pub tail: bool,
    /// A debug id to track down the rule generating an error.
    pub debug_id: DebugId,
}

impl PartialEq for FastSelect {
    fn eq(&self, other: &Self) -> (r: bool) {
        false
    }
}

impl vstd::std_specs::cmp::PartialEqSpecImpl for FastSelect {
    open spec fn obeys_eq_spec() -> bool {
        true
    }

    open spec fn eq_spec(&self, other: &Self) -> bool {
        false
    }
}

impl FastSelect {
    /// Parses select with lookup table.
    pub fn parse(
        &self,
        tokens: &mut Vec<Range<MetaData>>,
        state: &TokenizerState,
        read_token: &ReadToken,
        refs: &[Rule],
        indent_settings: &mut IndentSettings,
    ) -> (res: ParseResult<TokenizerState>)
        requires
            read_token@.wf(),
            parse_ends(RuleV::FastSelect(self@), rules_view(refs@), read_token@, state.0, store_of(old(tokens)@, *old(indent_settings))),
        ensures
            (res_view(res), store_of(final(tokens)@, *final(indent_settings))) == parse_outcome(RuleV::FastSelect(self@), rules_view(refs@), read_token@, state.0, store_of(old(tokens)@, *old(indent_settings))),
    {
        let ghost fuel = enough_fuel(RuleV::FastSelect(self@), rules_view(refs@), read_token@, state.0, store_of(tokens@, *indent_settings));
        self.parse_fuel(tokens, state, read_token, refs, indent_settings, Ghost((fuel - 1) as nat))
    }

    pub(crate) fn parse_fuel(
        &self,
        tokens: &mut Vec<Range<MetaData>>,
        state: &TokenizerState,
        read_token: &ReadToken,
        refs: &[Rule],
        indent_settings: &mut IndentSettings,
        Ghost(fuel): Ghost<nat>,
    ) -> (res: ParseResult<TokenizerState>)
        requires
            read_token@.wf(),
            fast_select_step(self@, rules_view(refs@), read_token@, state.0, store_of(old(tokens)@, *old(indent_settings)), fuel) is Some,
        ensures
            (res_view(res), store_of(final(tokens)@, *final(indent_settings))) == fast_select_step(self@, rules_view(refs@), read_token@, state.0, store_of(old(tokens)@, *old(indent_settings)), fuel)->0,
        decreases fuel, 1nat,
    {
        proof {
            lemma_rules_view(self.args@);
        }
        let bytes = read_token.src.as_bytes();
        if bytes.len() == 0 {
            return Err(read_token.start().wrap(ParseError::ExpectedSomething(self.debug_id)));
        }
        let ind = self.table[bytes[0] as usize];
        if self.tail {
            let mut opt_error: Option<Range<ParseError>> = None;
            if ind != 255 {
                match self.args[ind as usize].parse_fuel(tokens, state, read_token, refs, indent_settings, Ghost(fuel)) {
                    Ok((range, s, err)) => {
                        err_update(err, &mut opt_error);
                        return Ok((read_token.peek(range.length), s, opt_error));
                    },
                    Err(err) => {
                        err_update(Some(err), &mut opt_error);
                    },
                }
            }
            let last = self.args.len() - 1;
            match self.args[last].parse_fuel(tokens, state, read_token, refs, indent_settings, Ghost(fuel)) {
                Ok((range, s, err)) => {
                    err_update(err, &mut opt_error);
                    Ok((read_token.peek(range.length), s, opt_error))
                },
                Err(err) => Err(ret_err(err, opt_error)),
            }
        } else {
            if ind != 255 {
                match self.args[ind as usize].parse_fuel(tokens, state, read_token, refs, indent_settings, Ghost(fuel)) {
                    Ok((range, s, err)) => Ok((read_token.peek(range.length), s, err)),
                    Err(err) => Err(err),
                }
            } else {
                Err(read_token.start().wrap(ParseError::ExpectedSomething(self.debug_id)))
            }
        }
    }
}

impl View for FastSelect {
    type V = FastSelectV;

    open spec fn view(&self) -> FastSelectV {
        FastSelectV { table: self.table@, args: rules_view(self.args@), tail: self.tail, debug_id: self.debug_id }
    }
}

impl Clone for FastSelect {
    fn clone(&self) -> (r: Self)
        ensures
            r@ == self@,
        decreases self,
    {
        FastSelect { table: self.table, args: clone_rules(&self.args), tail: self.tail, debug_id: self.debug_id }
    }
}

} // verus!
