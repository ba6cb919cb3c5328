//! Reading a node by reference to another rule.

use std::sync::Arc;
use vstd::prelude::*;
use vstd::utf8::*;
use crate::range::Range;
use crate::read_token::{ReadToken, share, share_opt, lemma_consume_wf};
use crate::parse_error::{ParseError};
use crate::tokenizer::{TokenizerState, read_data};
use crate::{DebugId, MetaData};
use super::{Rule, RuleV, NodeV, name_view, rules_view, lemma_rules_view, ParseResult, IndentSettings, update, ret_err};
use super::semantics::{store_of, res_view, node_step, parse_ends, enough_fuel, parse_outcome};

verus! {

/// A node reference.
#[derive(Debug, PartialEq)]
pub struct Node {
    /// Name of rule.
    pub name: Arc<String>,
    /// The property to set.
    pub property: Option<Arc<String>>,
    /// A debug id to track down the rule generating an error.
    pub debug_id: DebugId,
    /// The index to the rule reference.
    pub index: Option<usize>,
}

impl Node {
    /// Parses node.
    pub fn parse(
        &self,
        tokens: &mut Vec<Range<MetaData>>,
        state: &TokenizerState,
        read_token: &ReadToken,
        refs: &[Rule],
        indent_settings: &mut IndentSettings,
    ) -> (res: ParseResult<TokenizerState>)
        requires
            read_token@.wf(),
            parse_ends(RuleV::Node(self@), rules_view(refs@), read_token@, state.0, store_of(old(tokens)@, *old(indent_settings))),
        ensures
            (res_view(res), store_of(final(tokens)@, *final(indent_settings))) == parse_outcome(RuleV::Node(self@), rules_view(refs@), read_token@, state.0, store_of(old(tokens)@, *old(indent_settings))),
    {
        let ghost fuel = enough_fuel(RuleV::Node(self@), rules_view(refs@), read_token@, state.0, store_of(tokens@, *indent_settings));
        self.parse_fuel(tokens, state, read_token, refs, indent_settings, Ghost((fuel - 1) as nat))
    }

    pub(crate) fn parse_fuel(
        &self,
        tokens: &mut Vec<Range<MetaData>>,
        state: &TokenizerState,
        read_token: &ReadToken,
        refs: &[Rule],
        indent_settings: &mut IndentSettings,
        Ghost(fuel): Ghost<nat>,
    ) -> (res: ParseResult<TokenizerState>)
        requires
            read_token@.wf(),
            node_step(self@, rules_view(refs@), read_token@, state.0, store_of(old(tokens)@, *old(indent_settings)), fuel) is Some,
        ensures
            (res_view(res), store_of(final(tokens)@, *final(indent_settings))) == node_step(self@, rules_view(refs@), read_token@, state.0, store_of(old(tokens)@, *old(indent_settings)), fuel)->0,
        decreases fuel, 1nat,
    {
        let index = match self.index {
            None => {
                return Err(read_token.start().wrap(ParseError::InvalidRule("Node rule is not updated to reference", self.debug_id)));
            },
            Some(i) => i,
        };
        proof {
            lemma_rules_view(refs@);
        }
        let state = match &self.property {
            Some(prop) => read_data(tokens, read_token.start().wrap(MetaData::StartNode(share(prop))), state),
            None => *state,
        };
        let mut rt = *read_token;
        let mut opt_error: Option<Range<ParseError>> = None;
        let state = match refs[index].parse_fuel(tokens, &state, &rt, refs, indent_settings, Ghost(fuel)) {
            Err(err) => {
                return Err(ret_err(err, opt_error));
            },
            Ok((range, state, err)) => {
                proof {
                    lemma_consume_wf(rt@, range.length as int);
                }
                update(range, err, &mut rt, &mut opt_error);
                state
            },
        };
        let range = rt.subtract(read_token);
        match &self.property {
            Some(prop) => {
                let s = read_data(tokens, range.wrap(MetaData::EndNode(share(prop))), &state);
                Ok((range, s, opt_error))
            },
            None => Ok((range, state, opt_error)),
        }
    }
}

impl View for Node {
    type V = NodeV;

    open spec fn view(&self) -> NodeV {
        NodeV { name: self.name@, property: name_view(self.property), debug_id: self.debug_id, index: self.index }
    }
}

impl Clone for Node {
    fn clone(&self) -> (r: Self)
        ensures
            r@ == self@,
    {
        Node { name: share(&self.name), property: share_opt(&self.property), debug_id: self.debug_id, index: self.index }
    }
}

} // verus!
