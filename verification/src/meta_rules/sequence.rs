//! Reading rules one after another.

use vstd::prelude::*;
use vstd::utf8::*;
use crate::range::Range;
use crate::read_token::{ReadToken, lemma_consume_wf};
use crate::parse_error::{ParseError, opt_err_view};
use crate::tokenizer::{TokenizerState};
use crate::{DebugId, MetaData};
use super::{Rule, RuleV, SequenceV, rules_view, lemma_rules_view, clone_rules, ParseResult, IndentSettings, update, ret_err};
use super::semantics::{store_of, res_view, sequence_loop, parse_ends, enough_fuel, parse_outcome};

verus! {

/// Stores information about sequence.
#[derive(Debug, PartialEq)]
pub struct Sequence {
    /// The sequential rules.
    pub args: Vec<Rule>,
    /// A debug id to track down the rule generating an error.
    pub debug_id: DebugId,
}

impl Sequence {
    /// Parses sequence. Fails if any sub rule fails.
    pub fn parse(
        &self,
        tokens: &mut Vec<Range<MetaData>>,
        state: &TokenizerState,
        read_token: &ReadToken,
        refs: &[Rule],
        indent_settings: &mut IndentSettings,
    ) -> (res: ParseResult<TokenizerState>)
        requires
            read_token@.wf(),
            parse_ends(RuleV::Sequence(self@), rules_view(refs@), read_token@, state.0, store_of(old(tokens)@, *old(indent_settings))),
        ensures
            (res_view(res), store_of(final(tokens)@, *final(indent_settings))) == parse_outcome(RuleV::Sequence(self@), rules_view(refs@), read_token@, state.0, store_of(old(tokens)@, *old(indent_settings))),
    {
        let ghost fuel = enough_fuel(RuleV::Sequence(self@), rules_view(refs@), read_token@, state.0, store_of(tokens@, *indent_settings));
        self.parse_fuel(tokens, state, read_token, refs, indent_settings, Ghost((fuel - 1) as nat))
    }

    pub(crate) fn parse_fuel(
        &self,
        tokens: &mut Vec<Range<MetaData>>,
        state: &TokenizerState,
        read_token: &ReadToken,
        refs: &[Rule],
        indent_settings: &mut IndentSettings,
        Ghost(fuel): Ghost<nat>,
    ) -> (res: ParseResult<TokenizerState>)
        requires
            read_token@.wf(),
            sequence_loop(self@.args, rules_view(refs@), read_token@, read_token@, state.0, store_of(old(tokens)@, *old(indent_settings)), 0, None, fuel) is Some,
        ensures
            (res_view(res), store_of(final(tokens)@, *final(indent_settings))) == sequence_loop(self@.args, rules_view(refs@), read_token@, read_token@, state.0, store_of(old(tokens)@, *old(indent_settings)), 0, None, fuel)->0,
        decreases fuel, 1nat,
    {
        let ghost args = self@.args;
        let ghost refs_v = rules_view(refs@);
        let ghost total = sequence_loop(args, refs_v, read_token@, read_token@, state.0, store_of(tokens@, *indent_settings), 0, None, fuel);
        proof {
            lemma_rules_view(self.args@);
        }
        let start = *read_token;
        let mut rt = *read_token;
        let mut st = *state;
        let mut opt_error: Option<Range<ParseError>> = None;
        let mut i: usize = 0;
        while i < self.args.len()
            invariant
                i <= self.args.len(),
                args == rules_view(self.args@),
                args.len() == self.args@.len(),
                forall|j: int| 0 <= j < self.args@.len() ==> #[trigger] args[j] == self.args@[j]@,
                refs_v == rules_view(refs@),
                rt@.wf(),
                total == sequence_loop(args, refs_v, read_token@, read_token@, state.0, store_of(old(tokens)@, *old(indent_settings)), 0, None, fuel),
                start.offset <= rt.offset,
                start == *read_token,
                total is Some,
                sequence_loop(args, refs_v, start@, rt@, st.0, store_of(tokens@, *indent_settings), i as int, opt_err_view(opt_error), fuel) == total,
            decreases self.args.len() - i,
        {
            proof {
                assert(args[i as int] == self.args@[i as int]@);
            }
            match self.args[i].parse_fuel(tokens, &st, &rt, refs, indent_settings, Ghost(fuel)) {
                Ok((range, s, err)) => {
                    proof {
                        lemma_consume_wf(rt@, range.length as int);
                    }
                    update(range, err, &mut rt, &mut opt_error);
                    st = s;
                },
                Err(err) => {
                    return Err(ret_err(err, opt_error));
                },
            }
            i = i + 1;
        }
        Ok((rt.subtract(&start), st, opt_error))
    }
}

impl View for Sequence {
    type V = SequenceV;

    open spec fn view(&self) -> SequenceV {
        SequenceV { args: rules_view(self.args@), debug_id: self.debug_id }
    }
}

impl Clone for Sequence {
    fn clone(&self) -> (r: Self)
        ensures
            r@ == self@,
        decreases self,
    {
        Sequence { args: clone_rules(&self.args), debug_id: self.debug_id }
    }
}

} // verus!
