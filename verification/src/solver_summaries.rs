//! The solver's summaries of signature returns and `for ... in` loops that belong
//! to one component of the semantic graph.
use vstd::prelude::*;

use crate::lookup::first_with_key;
use crate::offsets::{insert_sorted_unique, strictly_sorted};
use crate::semantic_graph::{SalsaSemanticGraphNodeSummary, SalsaSemanticGraphSccComponentSummary};
use crate::semantic_solver::{
    SalsaForRangeIterResolveStateSummary, SalsaSemanticResolveStateSummary, SalsaSemanticValueShellSummary,
    SalsaSignatureReturnResolveStateSummary, clone_shell, merge_semantic_value_shells, shell_states, shell_views,
    spec_join_states,
};
use crate::signature_model::{
    ForRangeSourceView, ReturnValueView, SalsaForRangeIterQuerySummary, SalsaForRangeIterSourceSummary,
    SalsaForRangeIterVarSummary, SalsaSignatureReturnExplainSummary, SalsaSignatureReturnQueryIndex,
    SalsaSignatureReturnQuerySummary, SalsaSignatureReturnValueSummary, clone_iter_vars, clone_opt_source,
    clone_return_rows, clone_return_values, clone_u32_vec, iter_vars_view, opt_source_view, return_rows_view,
    return_values_view,
};
use crate::solver_shells::{
    ShellSpec, build_semantic_value_shell_from_for_range_iter_source,
    build_semantic_value_shell_from_signature_return, find_signature_return_query_at, shell_is, shells_are,
    spec_for_range_iter_shell, spec_signature_return_shell,
};

verus! {

/// The signature returns of one component, solved together.
#[derive(Clone, Debug)]
pub struct SalsaSemanticSignatureReturnComponentSummary {
    pub component_id: usize,
    pub signature_offsets: Vec<u32>,
    pub propagated_value_shell: SalsaSemanticValueShellSummary,
    pub local_value_shell: SalsaSemanticValueShellSummary,
    pub fixedpoint_value_shell: SalsaSemanticValueShellSummary,
    pub value_shell: SalsaSemanticValueShellSummary,
    pub is_cycle: bool,
}

/// One signature's returns, as its component sees them.
#[derive(Clone, Debug)]
pub struct SalsaSemanticSignatureReturnSummary {
    pub component_id: usize,
    pub signature_offset: u32,
    pub state: SalsaSignatureReturnResolveStateSummary,
    pub doc_returns: Vec<SalsaSignatureReturnExplainSummary>,
    pub values: Vec<SalsaSignatureReturnValueSummary>,
    pub propagated_value_shell: SalsaSemanticValueShellSummary,
    pub local_value_shell: SalsaSemanticValueShellSummary,
    pub fixedpoint_value_shell: SalsaSemanticValueShellSummary,
    pub value_shell: SalsaSemanticValueShellSummary,
    pub is_cycle: bool,
}

/// One `for ... in` loop, as its component sees it.
#[derive(Clone, Debug)]
pub struct SalsaSemanticForRangeIterComponentSummary {
    pub component_id: usize,
    pub loop_offset: u32,
    pub iter_expr_offsets: Vec<u32>,
    pub state: SalsaForRangeIterResolveStateSummary,
    pub source: Option<SalsaForRangeIterSourceSummary>,
    pub iter_vars: Vec<SalsaForRangeIterVarSummary>,
    pub propagated_value_shell: SalsaSemanticValueShellSummary,
    pub local_value_shell: SalsaSemanticValueShellSummary,
    pub fixedpoint_value_shell: SalsaSemanticValueShellSummary,
    pub value_shell: SalsaSemanticValueShellSummary,
    pub is_cycle: bool,
}

pub open spec fn unknown_shell_view() -> (SalsaSemanticResolveStateSummary, Seq<u32>) {
    (SalsaSemanticResolveStateSummary::Unknown, Seq::<u32>::empty())
}

/// Whether a component holds the signature return at `offset`.
pub open spec fn holds_signature(nodes: Seq<SalsaSemanticGraphNodeSummary>, offset: u32) -> bool {
    nodes.contains(SalsaSemanticGraphNodeSummary::SignatureReturn(offset))
}

/// Whether a component holds the `for ... in` loop at `offset`.
pub open spec fn holds_loop(nodes: Seq<SalsaSemanticGraphNodeSummary>, offset: u32) -> bool {
    nodes.contains(SalsaSemanticGraphNodeSummary::ForRangeIter(offset))
}

pub(crate) fn component_holds(component: &SalsaSemanticGraphSccComponentSummary, node: SalsaSemanticGraphNodeSummary) -> (r: bool)
    ensures
        r == component.nodes@.contains(node),
{
    let mut i: usize = 0;
    while i < component.nodes.len()
        invariant
            i <= component.nodes@.len(),
            forall|j: int| 0 <= j < i ==> component.nodes@[j] != node,
        decreases component.nodes@.len() - i,
    {
        if component.nodes[i] == node {
            return true;
        }
        i = i + 1;
    }
    false
}

/// The summary of one signature's returns in `component`, if the component holds
/// that signature: its shell is the signature's return shell, it has propagated
/// nothing, and its local, fixed-point and final shells are that shell.
pub fn build_signature_return_summary(
    component: &SalsaSemanticGraphSccComponentSummary,
    summary: &SalsaSignatureReturnQuerySummary,
) -> (r: Option<SalsaSemanticSignatureReturnSummary>)
    ensures
        match r {
            None => !holds_signature(component.nodes@, summary.signature_offset),
            Some(s) => {
                &&& holds_signature(component.nodes@, summary.signature_offset)
                &&& s.component_id == component.component_id
                &&& s.signature_offset == summary.signature_offset
                &&& s.state == summary.state
                &&& return_rows_view(s.doc_returns@) == return_rows_view(summary.doc_returns@)
                &&& return_values_view(s.values@) == return_values_view(summary.values@)
                &&& s.propagated_value_shell@ == unknown_shell_view()
                &&& spec_signature_return_shell(*summary, s.value_shell@)
                &&& s.local_value_shell@ == s.value_shell@
                &&& s.fixedpoint_value_shell@ == s.value_shell@
                &&& s.is_cycle == component.is_cycle
            },
        },
{
    if !component_holds(component, SalsaSemanticGraphNodeSummary::SignatureReturn(summary.signature_offset)) {
        return None;
    }
    let value_shell = build_semantic_value_shell_from_signature_return(summary);
    Some(
        SalsaSemanticSignatureReturnSummary {
            component_id: component.component_id,
            signature_offset: summary.signature_offset,
            state: summary.state,
            doc_returns: clone_return_rows(&summary.doc_returns),
            values: clone_return_values(&summary.values),
            propagated_value_shell: SalsaSemanticValueShellSummary {
                state: SalsaSemanticResolveStateSummary::Unknown,
                candidate_type_offsets: Vec::new(),
            },
            local_value_shell: clone_shell(&value_shell),
            fixedpoint_value_shell: clone_shell(&value_shell),
            value_shell,
            is_cycle: component.is_cycle,
        },
    )
}

/// The summary of one `for ... in` loop in `component`, if the component holds
/// that loop: its shell is what the loop alone says, it has propagated nothing,
/// and its local, fixed-point and final shells are that shell.
pub fn build_for_range_iter_component_summary(
    component: &SalsaSemanticGraphSccComponentSummary,
    summary: &SalsaForRangeIterQuerySummary,
) -> (r: Option<SalsaSemanticForRangeIterComponentSummary>)
    ensures
        match r {
            None => !holds_loop(component.nodes@, summary.loop_offset),
            Some(s) => {
                &&& holds_loop(component.nodes@, summary.loop_offset)
                &&& s.component_id == component.component_id
                &&& s.loop_offset == summary.loop_offset
                &&& s.iter_expr_offsets@ == summary.iter_expr_offsets@
                &&& s.state == summary.state
                &&& opt_source_view(s.source) == opt_source_view(summary.source)
                &&& iter_vars_view(s.iter_vars@) == iter_vars_view(summary.iter_vars@)
                &&& s.propagated_value_shell@ == unknown_shell_view()
                &&& spec_for_range_iter_shell(*summary, None, s.value_shell@)
                &&& s.local_value_shell@ == s.value_shell@
                &&& s.fixedpoint_value_shell@ == s.value_shell@
                &&& s.is_cycle == component.is_cycle
            },
        },
{
    if !component_holds(component, SalsaSemanticGraphNodeSummary::ForRangeIter(summary.loop_offset)) {
        return None;
    }
    let value_shell = build_semantic_value_shell_from_for_range_iter_source(summary, None);
    Some(
        SalsaSemanticForRangeIterComponentSummary {
            component_id: component.component_id,
            loop_offset: summary.loop_offset,
            iter_expr_offsets: clone_u32_vec(&summary.iter_expr_offsets),
            state: summary.state,
            source: clone_opt_source(&summary.source),
            iter_vars: clone_iter_vars(&summary.iter_vars),
            propagated_value_shell: SalsaSemanticValueShellSummary {
                state: SalsaSemanticResolveStateSummary::Unknown,
                candidate_type_offsets: Vec::new(),
            },
            local_value_shell: clone_shell(&value_shell),
            fixedpoint_value_shell: clone_shell(&value_shell),
            value_shell,
            is_cycle: component.is_cycle,
        },
    )
}

} // verus!

verus! {

/// The return shell of the signature at `o`, where it has an entry.
pub open spec fn signature_shell_of(index: SalsaSignatureReturnQueryIndex, o: u32) -> Option<ShellSpec> {
    match first_with_key(index.signatures@, o) {
        Some(summary) => Some(
            (
                crate::semantic_solver::spec_semantic_from_signature_return(summary.state),
                |x: u32| summary.values@.len() > 0 && summary.values@[0].doc_return_type_offsets@.contains(x),
            ),
        ),
        None => None,
    }
}

/// The return shells of the signatures at `s`, skipping those without an entry.
pub open spec fn signature_shells_of(index: SalsaSignatureReturnQueryIndex, s: Seq<u32>) -> Seq<ShellSpec> {
    s.filter_map(|o: u32| signature_shell_of(index, o))
}

/// Merging shells described by `specs` joins their states and gathers all their
/// candidates.
proof fn lemma_merge_join_described(
    shells: Seq<SalsaSemanticValueShellSummary>,
    specs: Seq<ShellSpec>,
    r: (SalsaSemanticResolveStateSummary, Seq<u32>),
)
    requires
        shells_are(shell_views(shells), specs),
        r.0 == spec_join_states(shell_states(shell_views(shells))),
        crate::semantic_solver::spec_is_candidate_union(shell_views(shells), r.1),
    ensures
        shell_is(
            r,
            spec_join_states(specs.map_values(|p: ShellSpec| p.0)),
            |x: u32| exists|i: int| 0 <= i < specs.len() && (specs[i].1)(x),
        ),
{
    let views = shell_views(shells);
    assert(shell_states(views) =~= specs.map_values(|p: ShellSpec| p.0)) by {
        assert forall|i: int| 0 <= i < views.len() implies shell_states(views)[i] == specs.map_values(
            |p: ShellSpec| p.0,
        )[i] by {
            assert(shell_is(views[i], specs[i].0, specs[i].1));
        }
    }
    assert forall|x: u32| #[trigger] r.1.contains(x) <==> (exists|i: int| 0 <= i < specs.len() && (specs[i].1)(x)) by {
        if r.1.contains(x) {
            let i = choose|i: int| 0 <= i < views.len() && views[i].1.contains(x);
            assert(shell_is(views[i], specs[i].0, specs[i].1));
        }
        if exists|i: int| 0 <= i < specs.len() && (specs[i].1)(x) {
            let i = choose|i: int| 0 <= i < specs.len() && (specs[i].1)(x);
            assert(shell_is(views[i], specs[i].0, specs[i].1));
            assert(views[i].1.contains(x));
        }
    }
}

/// The signature returns of `component` solved together, if it holds any: their
/// offsets (increasing, each once), and the return shells of those with an
/// entry in `signature_returns` merged (states joined, candidates gathered) as
/// its local, fixed-point and final shell; it has propagated nothing.
pub fn build_signature_return_component_summary(
    component: &SalsaSemanticGraphSccComponentSummary,
    signature_returns: &SalsaSignatureReturnQueryIndex,
) -> (r: Option<SalsaSemanticSignatureReturnComponentSummary>)
    ensures
        match r {
            None => forall|o: u32| !holds_signature(component.nodes@, o),
            Some(s) => {
                let specs = signature_shells_of(*signature_returns, s.signature_offsets@);
                &&& s.component_id == component.component_id
                &&& strictly_sorted(s.signature_offsets@)
                &&& s.signature_offsets@.len() > 0
                &&& forall|o: u32| #[trigger] s.signature_offsets@.contains(o) <==> holds_signature(component.nodes@, o)
                &&& shell_is(
                    s.value_shell@,
                    spec_join_states(specs.map_values(|p: ShellSpec| p.0)),
                    |x: u32| exists|i: int| 0 <= i < specs.len() && (specs[i].1)(x),
                )
                &&& s.propagated_value_shell@ == unknown_shell_view()
                &&& s.local_value_shell@ == s.value_shell@
                &&& s.fixedpoint_value_shell@ == s.value_shell@
                &&& s.is_cycle == component.is_cycle
            },
        },
{
    let mut offsets: Vec<u32> = Vec::new();
    let mut i: usize = 0;
    while i < component.nodes.len()
        invariant
            i <= component.nodes@.len(),
            strictly_sorted(offsets@),
            forall|o: u32|
                #[trigger] offsets@.contains(o) <==> component.nodes@.take(i as int).contains(
                    SalsaSemanticGraphNodeSummary::SignatureReturn(o),
                ),
        decreases component.nodes@.len() - i,
    {
        let ghost before = offsets@;
        let ghost t0 = component.nodes@.take(i as int);
        let ghost t1 = component.nodes@.take(i + 1);
        match component.nodes[i] {
            SalsaSemanticGraphNodeSummary::SignatureReturn(o) => {
                insert_sorted_unique(&mut offsets, o);
            },
            _ => {},
        }
        proof {
            assert forall|o: u32|
                #[trigger] offsets@.contains(o) <==> t1.contains(SalsaSemanticGraphNodeSummary::SignatureReturn(o)) by {
                assert(before.contains(o) <==> t0.contains(SalsaSemanticGraphNodeSummary::SignatureReturn(o)));
                let n = SalsaSemanticGraphNodeSummary::SignatureReturn(o);
                if t1.contains(n) {
                    let k = choose|k: int| 0 <= k < t1.len() && t1[k] == n;
                    if k < i {
                        assert(t0[k] == n);
                    }
                }
                if t0.contains(n) {
                    let k = choose|k: int| 0 <= k < t0.len() && t0[k] == n;
                    assert(t1[k] == n);
                }
                if component.nodes@[i as int] == n {
                    assert(t1[i as int] == n);
                }
            }
        }
        i = i + 1;
        assert(component.nodes@.take(i as int) == t1);
    }
    assert(component.nodes@.take(i as int) =~= component.nodes@);
    if offsets.len() == 0 {
        assert forall|o: u32| !holds_signature(component.nodes@, o) by {
            if holds_signature(component.nodes@, o) {
                assert(offsets@.contains(o));
            }
        }
        return None;
    }
    let mut shells: Vec<SalsaSemanticValueShellSummary> = Vec::new();
    let mut k: usize = 0;
    proof {
        assert(shell_views(shells@) =~= Seq::empty());
        assert(signature_shells_of(*signature_returns, offsets@.take(0)) =~= Seq::empty());
    }
    while k < offsets.len()
        invariant
            k <= offsets@.len(),
            shells_are(shell_views(shells@), signature_shells_of(*signature_returns, offsets@.take(k as int))),
        decreases offsets@.len() - k,
    {
        let o = offsets[k];
        let ghost before = shells@;
        let ghost t0 = offsets@.take(k as int);
        let ghost t1 = offsets@.take(k + 1);
        proof {
            assert(t1.drop_last() =~= t0);
            assert(t1.last() == o);
        }
        match find_signature_return_query_at(signature_returns, o) {
            Some(summary) => {
                shells.push(build_semantic_value_shell_from_signature_return(summary));
                proof {
                    let specs = signature_shells_of(*signature_returns, t1);
                    assert(shell_views(shells@) =~= shell_views(before).push(shells@[shells@.len() - 1]@));
                    assert forall|j: int| 0 <= j < shell_views(shells@).len() implies shell_is(
                        #[trigger] shell_views(shells@)[j],
                        specs[j].0,
                        specs[j].1,
                    ) by {
                        if j < before.len() {
                            assert(shell_views(shells@)[j] == shell_views(before)[j]);
                            assert(specs[j] == signature_shells_of(*signature_returns, t0)[j]);
                        }
                    }
                }
            },
            None => {},
        }
        k = k + 1;
        assert(offsets@.take(k as int) == t1);
    }
    assert(offsets@.take(k as int) =~= offsets@);
    let value_shell = merge_semantic_value_shells(&shells);
    proof {
        lemma_merge_join_described(shells@, signature_shells_of(*signature_returns, offsets@), value_shell@);
        assert forall|o: u32| #[trigger] offsets@.contains(o) <==> holds_signature(component.nodes@, o) by {}
    }
    Some(
        SalsaSemanticSignatureReturnComponentSummary {
            component_id: component.component_id,
            signature_offsets: offsets,
            propagated_value_shell: SalsaSemanticValueShellSummary {
                state: SalsaSemanticResolveStateSummary::Unknown,
                candidate_type_offsets: Vec::new(),
            },
            local_value_shell: clone_shell(&value_shell),
            fixedpoint_value_shell: clone_shell(&value_shell),
            value_shell,
            is_cycle: component.is_cycle,
        },
    )
}

} // verus!
