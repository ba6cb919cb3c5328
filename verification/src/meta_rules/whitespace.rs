//! Reading whitespace.

use std::sync::Arc;
use vstd::prelude::*;
use vstd::utf8::*;
use crate::range::Range;
use crate::read_token::{ReadToken};
use crate::parse_error::{ParseError};
use crate::{DebugId};
use crate::text::arc_text;
use super::{RuleV, TokenV, SelectV, SequenceV, rules_view, lemma_rules_view};
use super::{Rule, Tag, Select, Sequence};
use super::semantics::{res_range_view, whitespace_result};

verus! {

/// Stores information about whitespace.
#[derive(Clone, Copy, Debug, PartialEq, Eq)]
pub struct Whitespace {
    /// Whether the whitespace is optional or required.
    pub optional: bool,
    /// A debug id to track down the rule generating an error.
    pub debug_id: DebugId,
}

impl Whitespace {
    /// Parse whitespace.
    /// If whitespace is required and no whitespace is found,
    /// an error will be reported.
    pub fn parse(&self, read_token: &ReadToken) -> (res: Result<Range, Range<ParseError>>)
        ensures
            res_range_view(res) == whitespace_result(*self, read_token@),
    {
        let range = read_token.whitespace();
        if range.length == 0 && !self.optional {
            Err(range.wrap(ParseError::ExpectedWhitespace(self.debug_id)))
        } else {
            Ok(range)
        }
    }
}


/// The rule for whitespace in the meta language, `whitespace` followed by
/// `?` for optional or `!` for required.
pub open spec fn whitespace_rule() -> RuleV {
    RuleV::Sequence(SequenceV {
        debug_id: 0,
        args: seq![
            RuleV::Whitespace(Whitespace { debug_id: 1, optional: true }),
            RuleV::Tag(TokenV { debug_id: 2, text: "whitespace"@, not: false, inverted: false, property: None }),
            RuleV::Select(SelectV {
                debug_id: 3,
                args: seq![
                    RuleV::Tag(TokenV { debug_id: 4, text: "?"@, not: false, inverted: false, property: Some("optional"@) }),
                    RuleV::Tag(TokenV { debug_id: 5, text: "!"@, not: false, inverted: true, property: Some("optional"@) }),
                ],
            }),
        ],
    })
}

impl Whitespace {
    /// Gets the rule for whitespace in the meta language, with its name.
    pub fn rule() -> (r: (Arc<String>, Rule))
        ensures
            r.0@ == "whitespace"@,
            r.1@ == whitespace_rule(),
    {
        let opt = Rule::Tag(Tag { debug_id: 4, text: arc_text("?"), not: false, inverted: false, property: Some(arc_text("optional")) });
        let req = Rule::Tag(Tag { debug_id: 5, text: arc_text("!"), not: false, inverted: true, property: Some(arc_text("optional")) });
        let mut choices: Vec<Rule> = Vec::new();
        choices.push(opt);
        choices.push(req);
        proof {
            lemma_rules_view(choices@);
            assert(rules_view(choices@) =~= seq![choices@[0]@, choices@[1]@]);
        }
        let select = Rule::Select(Select { debug_id: 3, args: choices });
        let mut args: Vec<Rule> = Vec::new();
        args.push(Rule::Whitespace(Whitespace { debug_id: 1, optional: true }));
        args.push(Rule::Tag(Tag { debug_id: 2, text: arc_text("whitespace"), not: false, inverted: false, property: None }));
        args.push(select);
        proof {
            lemma_rules_view(args@);
            assert(rules_view(args@) =~= seq![args@[0]@, args@[1]@, args@[2]@]);
        }
        (arc_text("whitespace"), Rule::Sequence(Sequence { debug_id: 0, args }))
    }
}

} // verus!
