//! What updating references does to each node of a rule.

use vstd::prelude::*;
use super::{RuleV, NodeV, SelectV, SequenceV, SeparateByV, RepeatV, LinesV, OptionalV, NotV, find_name, refs_updated, args_updated, lemma_args_updated, lemma_find_name};

verus! {

/// The nodes of a rule, in order, reached through its sub rules (a fast
/// select, which is made after references are updated, is not entered).
pub open spec fn nodes_of(r: RuleV) -> Seq<NodeV>
    decreases r,
{
    match r {
        RuleV::Node(n) => seq![n],
        RuleV::Select(s) => nodes_of_all(s.args),
        RuleV::Sequence(s) => nodes_of_all(s.args),
        RuleV::SeparateBy(s) => nodes_of(*s.rule) + nodes_of(*s.by),
        RuleV::Repeat(rep) => nodes_of(*rep.rule),
        RuleV::Lines(l) => nodes_of(*l.rule),
        RuleV::Optional(o) => nodes_of(*o.rule),
        RuleV::Not(n) => nodes_of(*n.rule),
        _ => Seq::empty(),
    }
}

/// The nodes of a list of rules, in order.
pub open spec fn nodes_of_all(s: Seq<RuleV>) -> Seq<NodeV>
    decreases s,
{
    if s.len() == 0 {
        Seq::empty()
    } else {
        nodes_of_all(s.subrange(0, s.len() - 1)) + nodes_of(s[s.len() - 1])
    }
}

/// A rule with the index of each of its nodes taken away.
pub open spec fn without_indices(r: RuleV) -> RuleV
    decreases r,
{
    match r {
        RuleV::Node(n) => RuleV::Node(NodeV { index: None, ..n }),
        RuleV::Select(s) => RuleV::Select(SelectV { args: all_without_indices(s.args), ..s }),
        RuleV::Sequence(s) => RuleV::Sequence(SequenceV { args: all_without_indices(s.args), ..s }),
        RuleV::SeparateBy(s) => RuleV::SeparateBy(SeparateByV { rule: Box::new(without_indices(*s.rule)), by: Box::new(without_indices(*s.by)), ..s }),
        RuleV::Repeat(rep) => RuleV::Repeat(RepeatV { rule: Box::new(without_indices(*rep.rule)), ..rep }),
        RuleV::Lines(l) => RuleV::Lines(LinesV { rule: Box::new(without_indices(*l.rule)), ..l }),
        RuleV::Optional(o) => RuleV::Optional(OptionalV { rule: Box::new(without_indices(*o.rule)), ..o }),
        RuleV::Not(n) => RuleV::Not(NotV { rule: Box::new(without_indices(*n.rule)), ..n }),
        _ => r,
    }
}

/// A list of rules with the index of each of their nodes taken away.
pub open spec fn all_without_indices(s: Seq<RuleV>) -> Seq<RuleV>
    decreases s,
{
    if s.len() == 0 {
        Seq::empty()
    } else {
        all_without_indices(s.subrange(0, s.len() - 1)).push(without_indices(s[s.len() - 1]))
    }
}

/// A node as updating references leaves it: one without an index gets
/// the index of the first rule with its name, if there is one.
pub open spec fn resolved(n: NodeV, names: Seq<Seq<char>>) -> NodeV {
    match n.index {
        None => NodeV { index: find_name(names, n.name, 0), ..n },
        Some(_) => n,
    }
}

/// A node that had an index keeps it; one without an index gets the
/// least index whose name is the node's name, and stays without one where
/// no name matches; nothing else of the node changes.
pub proof fn lemma_resolved(n: NodeV, names: Seq<Seq<char>>)
    requires
        names.len() <= usize::MAX,
    ensures
        resolved(n, names).name == n.name,
        resolved(n, names).property == n.property,
        resolved(n, names).debug_id == n.debug_id,
        n.index is Some ==> resolved(n, names).index == n.index,
        n.index is None && (exists|i: int| 0 <= i < names.len() && names[i] == n.name) ==> (
            resolved(n, names).index matches Some(k) && k < names.len() && names[k as int] == n.name
                && forall|j: int| 0 <= j < k ==> names[j] != n.name),
        n.index is None && !(exists|i: int| 0 <= i < names.len() && names[i] == n.name) ==> resolved(n, names).index is None,
{
    lemma_find_name(names, n.name, 0);
}

/// Updating references changes the nodes of a rule each as `resolved`
/// says, in order, and nothing else of the rule.
pub proof fn lemma_refs_updated_nodes(r: RuleV, names: Seq<Seq<char>>)
    ensures
        nodes_of(refs_updated(r, names)) == nodes_of(r).map_values(|n: NodeV| resolved(n, names)),
        without_indices(refs_updated(r, names)) == without_indices(r),
    decreases r,
{
    match r {
        RuleV::Node(n) => {
            assert(seq![n].map_values(|n: NodeV| resolved(n, names)) =~= seq![resolved(n, names)]);
        },
        RuleV::Select(s) => lemma_args_updated_nodes(s.args, names),
        RuleV::Sequence(s) => lemma_args_updated_nodes(s.args, names),
        RuleV::SeparateBy(s) => {
            lemma_refs_updated_nodes(*s.rule, names);
            lemma_refs_updated_nodes(*s.by, names);
            assert((nodes_of(*s.rule) + nodes_of(*s.by)).map_values(|n: NodeV| resolved(n, names))
                =~= nodes_of(*s.rule).map_values(|n: NodeV| resolved(n, names)) + nodes_of(*s.by).map_values(|n: NodeV| resolved(n, names)));
        },
        RuleV::Repeat(rep) => lemma_refs_updated_nodes(*rep.rule, names),
        RuleV::Lines(l) => lemma_refs_updated_nodes(*l.rule, names),
        RuleV::Optional(o) => lemma_refs_updated_nodes(*o.rule, names),
        RuleV::Not(n) => lemma_refs_updated_nodes(*n.rule, names),
        _ => {
            assert(nodes_of(r).map_values(|n: NodeV| resolved(n, names)) =~= Seq::<NodeV>::empty());
        },
    }
}

/// Updating references changes the nodes of a list of rules each as
/// `resolved` says, in order, and nothing else of the list.
pub proof fn lemma_args_updated_nodes(s: Seq<RuleV>, names: Seq<Seq<char>>)
    ensures
        nodes_of_all(args_updated(s, names)) == nodes_of_all(s).map_values(|n: NodeV| resolved(n, names)),
        all_without_indices(args_updated(s, names)) == all_without_indices(s),
    decreases s,
{
    if s.len() == 0 {
        assert(nodes_of_all(s).map_values(|n: NodeV| resolved(n, names)) =~= Seq::<NodeV>::empty());
    } else {
        let sub = s.subrange(0, s.len() - 1);
        let last = s[s.len() - 1];
        assert(decreases_to!(s => last));
        lemma_args_updated_nodes(sub, names);
        lemma_refs_updated_nodes(last, names);
        lemma_args_updated(s, names);
        lemma_args_updated(sub, names);
        let u = args_updated(s, names);
        assert(u.subrange(0, u.len() - 1) =~= args_updated(sub, names));
        assert(u[u.len() - 1] == refs_updated(last, names));
        assert((nodes_of_all(sub) + nodes_of(last)).map_values(|n: NodeV| resolved(n, names))
            =~= nodes_of_all(sub).map_values(|n: NodeV| resolved(n, names)) + nodes_of(last).map_values(|n: NodeV| resolved(n, names)));
    }
}

} // verus!
