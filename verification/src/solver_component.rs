//! Solving one component of the semantic graph: the shells of its declarations,
//! members, signatures, loops and module export, what its predecessors pass in,
//! and the step that records the result in the execution.
use vstd::prelude::*;

use crate::lookup::first_with_key;
use crate::offsets::{insert_sorted_unique, insert_sorted_unique_usize, strictly_sorted, strictly_sorted_usize};
use crate::semantic_graph::{SalsaSemanticGraphNodeSummary, SalsaSemanticGraphSccComponentSummary, SalsaSemanticGraphSccIndex};
use crate::solver_execution::{
    SalsaSemanticSolverComponentResultSummary, SalsaSemanticSolverExecutionSummary, SalsaSemanticSolverStepSummary,
    clone_component_result, complete_semantic_solver_execution_task_with_result, exec_task_views,
    find_next_ready_semantic_solver_execution_task, find_semantic_solver_component_result, first_exec_task_index,
    first_result_index, is_min_id, lemma_first_exec_task_index, result_views, spec_complete,
};
use crate::semantic::{SalsaModuleExportSemanticSummary, build_semantic_value_shell_from_module_export, spec_module_export_state};
use crate::semantic_solver::{
    SalsaSemanticResolveStateSummary, SalsaSemanticValueShellSummary, build_propagated_value_shell, clone_shell,
    merge_solver_value_shells, shell_states, shell_views, solve_component_fixedpoint, spec_join_states,
    spec_is_candidate_union, spec_propagated, spec_semantic_from_for_range_iter, spec_semantic_from_signature_return,
    spec_some_candidate, spec_step, spec_strongest_state,
};
use crate::signature_model::{
    CallExplainView, ForRangeSourceView, SalsaForRangeIterQuerySummary, SalsaForRangeIterSourceKindSummary,
    SalsaForRangeIterQueryIndex, SalsaSignatureExplainIndex, SalsaSignatureReturnQueryIndex,
    SalsaSignatureReturnQuerySummary, candidates_view, find_call_explain_at, find_call_explain_by_syntax_id,
    find_for_range_iter_query_at, spec_find_call_explain_at, clone_candidates,
    spec_find_call_explain_by_syntax_id,
};
use crate::solver_shells::{
    ShellSpec, build_decl_value_shell, build_semantic_value_shell_from_decl_type,
    build_semantic_value_shell_from_member_type, build_member_value_shell, build_semantic_value_shell_from_call_explain_slot,
    build_semantic_value_shell_from_for_range_iter_source, build_semantic_value_shell_from_signature_return,
    find_signature_return_query_at, lemma_merge_described, shell_is, shells_are, some_candidate_declares, spec_call_slot_shell, spec_call_slot_shells, spec_call_state,
    spec_candidates_shell, spec_candidates_state, spec_decl_type_shell, spec_decl_type_state,
    spec_for_range_iter_shell, spec_for_range_source_shell, spec_signature_return_shell,
};
use crate::type_info::{
    SalsaDeclTypeInfoSummary, SalsaDeclTypeQueryIndex, SalsaMemberTypeInfoSummary, SalsaMemberTypeQueryIndex,
    SalsaSyntaxIdSummary, SalsaTypeCandidateSummary, find_decl_type_info, find_member_type_info,
    spec_find_decl_type_info, spec_find_member_type_info,
};
use crate::uses::{
    SalsaNameUseResolutionSummary, SalsaUseSiteIndexSummary, find_member_use_at, find_name_use_at, use_at_index,
};

verus! {

/// A shell with no candidates and the given state.
pub open spec fn bare_spec(state: SalsaSemanticResolveStateSummary) -> ShellSpec {
    (state, |x: u32| false)
}

/// The shell of a declaration from its type information.
pub open spec fn decl_shell_spec(d: Option<SalsaDeclTypeInfoSummary>) -> ShellSpec {
    match d {
        Some(d) => (spec_decl_type_state(d), |x: u32| d.explicit_type_offsets@.contains(x)),
        None => bare_spec(SalsaSemanticResolveStateSummary::Unknown),
    }
}

/// The shell of a member from its type information.
pub open spec fn member_shell_spec(m: Option<SalsaMemberTypeInfoSummary>) -> ShellSpec {
    match m {
        Some(m) => (
            spec_candidates_state(candidates_view(m.candidates@), true),
            |x: u32| some_candidate_declares(candidates_view(m.candidates@), x),
        ),
        None => bare_spec(SalsaSemanticResolveStateSummary::Unknown),
    }
}

/// The shell of a signature's return values.
pub open spec fn signature_shell_spec(summary: SalsaSignatureReturnQuerySummary) -> ShellSpec {
    (
        spec_semantic_from_signature_return(summary.state),
        |x: u32| summary.values@.len() > 0 && summary.values@[0].doc_return_type_offsets@.contains(x),
    )
}

/// The shell of result `result_index` of a call.
pub open spec fn call_slot_spec(index: SalsaSignatureReturnQueryIndex, call: CallExplainView, result_index: usize) -> ShellSpec {
    let specs = spec_call_slot_shells(index, call, result_index);
    if specs.len() > 0 {
        (
            spec_strongest_state(specs.map_values(|p: ShellSpec| p.0)),
            |x: u32| exists|i: int| 0 <= i < specs.len() && (specs[i].1)(x),
        )
    } else {
        bare_spec(
            if call.resolved_signature_offset.is_some() || call.candidate_signature_offsets.len() > 0 {
                SalsaSemanticResolveStateSummary::Partial
            } else {
                SalsaSemanticResolveStateSummary::Unknown
            },
        )
    }
}

/// The shell of the source of a `for ... in` loop.
pub open spec fn for_range_source_spec(
    signature_returns: Option<SalsaSignatureReturnQueryIndex>,
    source: ForRangeSourceView,
) -> ShellSpec {
    match source.kind {
        SalsaForRangeIterSourceKindSummary::Name => match source.name_type {
            Some(cs) => (spec_candidates_state(cs, false), |x: u32| some_candidate_declares(cs, x)),
            None => bare_spec(SalsaSemanticResolveStateSummary::Unknown),
        },
        SalsaForRangeIterSourceKindSummary::Member => match source.member_type {
            Some(cs) => (spec_candidates_state(cs, false), |x: u32| some_candidate_declares(cs, x)),
            None => bare_spec(SalsaSemanticResolveStateSummary::Unknown),
        },
        SalsaForRangeIterSourceKindSummary::Call => match source.call {
            Some(call) => match signature_returns {
                Some(index) => call_slot_spec(index, call, 0),
                None => bare_spec(spec_call_state(call)),
            },
            None => bare_spec(SalsaSemanticResolveStateSummary::Unknown),
        },
        SalsaForRangeIterSourceKindSummary::Other => bare_spec(SalsaSemanticResolveStateSummary::Unknown),
    }
}

/// The shell of a `for ... in` loop.
pub open spec fn for_range_shell_spec(
    summary: SalsaForRangeIterQuerySummary,
    signature_returns: Option<SalsaSignatureReturnQueryIndex>,
) -> ShellSpec {
    let own = spec_semantic_from_for_range_iter(summary.state);
    match summary.source {
        None => bare_spec(own),
        Some(source) => {
            let s = for_range_source_spec(signature_returns, source@);
            (spec_join_states(seq![s.0, own]), s.1)
        },
    }
}

pub proof fn lemma_decl_shell(d: Option<SalsaDeclTypeInfoSummary>, s: (SalsaSemanticResolveStateSummary, Seq<u32>))
    requires
        spec_decl_type_shell(d, s),
    ensures
        shell_is(s, decl_shell_spec(d).0, decl_shell_spec(d).1),
{
}

pub proof fn lemma_member_shell(m: Option<SalsaMemberTypeInfoSummary>, s: (SalsaSemanticResolveStateSummary, Seq<u32>))
    requires
        match m {
            Some(m) => spec_candidates_shell(candidates_view(m.candidates@), true, s),
            None => s == (SalsaSemanticResolveStateSummary::Unknown, Seq::<u32>::empty()),
        },
    ensures
        shell_is(s, member_shell_spec(m).0, member_shell_spec(m).1),
{
}

pub proof fn lemma_signature_shell(summary: SalsaSignatureReturnQuerySummary, s: (SalsaSemanticResolveStateSummary, Seq<u32>))
    requires
        spec_signature_return_shell(summary, s),
    ensures
        shell_is(s, signature_shell_spec(summary).0, signature_shell_spec(summary).1),
{
}

pub proof fn lemma_call_slot_shell(
    index: SalsaSignatureReturnQueryIndex,
    call: CallExplainView,
    result_index: usize,
    s: (SalsaSemanticResolveStateSummary, Seq<u32>),
)
    requires
        spec_call_slot_shell(index, call, result_index, s),
    ensures
        shell_is(s, call_slot_spec(index, call, result_index).0, call_slot_spec(index, call, result_index).1),
{
}

pub proof fn lemma_for_range_source_shell(
    signature_returns: Option<SalsaSignatureReturnQueryIndex>,
    source: ForRangeSourceView,
    s: (SalsaSemanticResolveStateSummary, Seq<u32>),
)
    requires
        spec_for_range_source_shell(signature_returns, source, s),
    ensures
        shell_is(s, for_range_source_spec(signature_returns, source).0, for_range_source_spec(signature_returns, source).1),
{
    match source.kind {
        SalsaForRangeIterSourceKindSummary::Call => match source.call {
            Some(call) => match signature_returns {
                Some(index) => lemma_call_slot_shell(index, call, 0, s),
                None => {},
            },
            None => {},
        },
        _ => {},
    }
}

pub proof fn lemma_for_range_shell(
    summary: SalsaForRangeIterQuerySummary,
    signature_returns: Option<SalsaSignatureReturnQueryIndex>,
    r: (SalsaSemanticResolveStateSummary, Seq<u32>),
)
    requires
        spec_for_range_iter_shell(summary, signature_returns, r),
    ensures
        shell_is(r, for_range_shell_spec(summary, signature_returns).0, for_range_shell_spec(summary, signature_returns).1),
{
    match summary.source {
        None => {},
        Some(source) => {
            let s = choose|s: (SalsaSemanticResolveStateSummary, Seq<u32>)|
                spec_for_range_source_shell(signature_returns, source@, s) && r == (
                    spec_join_states(seq![s.0, spec_semantic_from_for_range_iter(summary.state)]),
                    s.1,
                );
            lemma_for_range_source_shell(signature_returns, source@, s);
        },
    }
}

/// The call that an initializer comes from: the one whose node is the source
/// call, if it is explained, else the one at the initializer's offset.
pub open spec fn spec_initializer_call(
    explain: SalsaSignatureExplainIndex,
    expr_offset: u32,
    source_call_syntax_id: Option<SalsaSyntaxIdSummary>,
) -> Option<CallExplainView> {
    match source_call_syntax_id {
        Some(id) => match spec_find_call_explain_by_syntax_id(explain, id) {
            Some(c) => Some(c),
            None => spec_find_call_explain_at(explain, expr_offset),
        },
        None => spec_find_call_explain_at(explain, expr_offset),
    }
}

/// The shell of an initializer: that of result `result_index` of the call it
/// comes from; else that of the member it reads; else that of the local
/// declaration it names; else none.
pub open spec fn initializer_shell_spec(
    expr_offset: u32,
    result_index: usize,
    source_call_syntax_id: Option<SalsaSyntaxIdSummary>,
    decl_types: SalsaDeclTypeQueryIndex,
    member_types: SalsaMemberTypeQueryIndex,
    signature_returns: SalsaSignatureReturnQueryIndex,
    use_sites: SalsaUseSiteIndexSummary,
    explain: SalsaSignatureExplainIndex,
) -> Option<ShellSpec> {
    match spec_initializer_call(explain, expr_offset, source_call_syntax_id) {
        Some(call) => Some(call_slot_spec(signature_returns, call, result_index)),
        None => {
            let m = use_at_index(use_sites.members@, expr_offset);
            if 0 <= m < use_sites.members@.len() {
                Some(member_shell_spec(spec_find_member_type_info(member_types, use_sites.members@[m].target)))
            } else {
                let n = use_at_index(use_sites.names@, expr_offset);
                if 0 <= n < use_sites.names@.len() {
                    match use_sites.names@[n].resolution {
                        SalsaNameUseResolutionSummary::LocalDecl(d) => Some(
                            decl_shell_spec(spec_find_decl_type_info(decl_types, d)),
                        ),
                        SalsaNameUseResolutionSummary::Global => None,
                    }
                } else {
                    None
                }
            }
        },
    }
}

/// A shell matches an optional description: both present and matching, or both
/// absent.
pub open spec fn opt_shell_is(r: Option<SalsaSemanticValueShellSummary>, spec: Option<ShellSpec>) -> bool {
    match (r, spec) {
        (Some(s), Some(sp)) => shell_is(s@, sp.0, sp.1),
        (None, None) => true,
        _ => false,
    }
}

/// The shell of an initializer expression, where the file says what it is.
pub fn build_semantic_value_shell_from_initializer_expr(
    expr_offset: u32,
    result_index: usize,
    source_call_syntax_id: Option<SalsaSyntaxIdSummary>,
    decl_types: &SalsaDeclTypeQueryIndex,
    member_types: &SalsaMemberTypeQueryIndex,
    signature_returns: &SalsaSignatureReturnQueryIndex,
    use_sites: &SalsaUseSiteIndexSummary,
    signature_explain_index: &SalsaSignatureExplainIndex,
) -> (r: Option<SalsaSemanticValueShellSummary>)
    ensures
        opt_shell_is(
            r,
            initializer_shell_spec(
                expr_offset,
                result_index,
                source_call_syntax_id,
                *decl_types,
                *member_types,
                *signature_returns,
                *use_sites,
                *signature_explain_index,
            ),
        ),
{
    let by_id = match source_call_syntax_id {
        Some(id) => find_call_explain_by_syntax_id(signature_explain_index, id),
        None => None,
    };
    let call = match by_id {
        Some(c) => Some(c),
        None => find_call_explain_at(signature_explain_index, expr_offset),
    };
    if let Some(call) = call {
        let s = build_semantic_value_shell_from_call_explain_slot(signature_returns, &call, result_index);
        proof { lemma_call_slot_shell(*signature_returns, call@, result_index, s@); }
        return Some(s);
    }
    if let Some(member_use) = find_member_use_at(use_sites, expr_offset) {
        let s = build_member_value_shell(member_types, member_use.target);
        proof { lemma_member_shell(spec_find_member_type_info(*member_types, member_use.target), s@); }
        return Some(s);
    }
    if let Some(name_use) = find_name_use_at(use_sites, expr_offset) {
        if let SalsaNameUseResolutionSummary::LocalDecl(decl_id) = name_use.resolution {
            let s = build_decl_value_shell(decl_types, decl_id);
            proof { lemma_decl_shell(spec_find_decl_type_info(*decl_types, decl_id), s@); }
            return Some(s);
        }
    }
    None
}

/// What the shells of a component are read from.
pub struct SolverContext {
    pub decl_types: SalsaDeclTypeQueryIndex,
    pub member_types: SalsaMemberTypeQueryIndex,
    pub signature_returns: SalsaSignatureReturnQueryIndex,
    pub for_range_iters: SalsaForRangeIterQueryIndex,
    pub use_sites: SalsaUseSiteIndexSummary,
    pub explain: SalsaSignatureExplainIndex,
    pub module_export: Option<SalsaModuleExportSemanticSummary>,
}

pub open spec fn ctx_initializer_spec(
    ctx: SolverContext,
    expr_offset: u32,
    result_index: usize,
    source_call_syntax_id: Option<SalsaSyntaxIdSummary>,
) -> Option<ShellSpec> {
    initializer_shell_spec(
        expr_offset,
        result_index,
        source_call_syntax_id,
        ctx.decl_types,
        ctx.member_types,
        ctx.signature_returns,
        ctx.use_sites,
        ctx.explain,
    )
}

/// The shells of the declarations' type information, in order.
pub open spec fn decl_specs(ctx: SolverContext, ids: Seq<u32>) -> Seq<ShellSpec>
    decreases ids.len(),
{
    if ids.len() == 0 {
        Seq::empty()
    } else {
        decl_specs(ctx, ids.drop_last()).push(decl_shell_spec(spec_find_decl_type_info(ctx.decl_types, ids.last())))
    }
}

/// The shells of the declarations' initializers, where they have one that the
/// file explains, in order.
pub open spec fn decl_init_specs(ctx: SolverContext, ids: Seq<u32>) -> Seq<ShellSpec>
    decreases ids.len(),
{
    if ids.len() == 0 {
        Seq::empty()
    } else {
        let prev = decl_init_specs(ctx, ids.drop_last());
        match spec_find_decl_type_info(ctx.decl_types, ids.last()) {
            Some(d) => match d.initializer_offset {
                Some(x) => match ctx_initializer_spec(ctx, x, d.value_result_index, d.source_call_syntax_id) {
                    Some(sp) => prev.push(sp),
                    None => prev,
                },
                None => prev,
            },
            None => prev,
        }
    }
}

/// The shells of the members' type information, in order.
pub open spec fn member_specs(ctx: SolverContext, targets: Seq<u32>) -> Seq<ShellSpec>
    decreases targets.len(),
{
    if targets.len() == 0 {
        Seq::empty()
    } else {
        member_specs(ctx, targets.drop_last()).push(
            member_shell_spec(spec_find_member_type_info(ctx.member_types, targets.last())),
        )
    }
}

/// The shells of the candidates' initializers, where they have one that the file
/// explains, in order.
pub open spec fn candidate_init_specs(ctx: SolverContext, cs: Seq<SalsaTypeCandidateSummary>) -> Seq<ShellSpec>
    decreases cs.len(),
{
    if cs.len() == 0 {
        Seq::empty()
    } else {
        let prev = candidate_init_specs(ctx, cs.drop_last());
        let c = cs.last();
        match c.initializer_offset {
            Some(x) => match ctx_initializer_spec(ctx, x, c.value_result_index, c.source_call_syntax_id) {
                Some(sp) => prev.push(sp),
                None => prev,
            },
            None => prev,
        }
    }
}

/// The shells of the initializers of the members' candidates, in order.
pub open spec fn member_init_specs(ctx: SolverContext, targets: Seq<u32>) -> Seq<ShellSpec>
    decreases targets.len(),
{
    if targets.len() == 0 {
        Seq::empty()
    } else {
        member_init_specs(ctx, targets.drop_last()) + match spec_find_member_type_info(ctx.member_types, targets.last()) {
            Some(m) => candidate_init_specs(ctx, m.candidates@),
            None => Seq::empty(),
        }
    }
}

/// The return shells of the signatures that have an entry, in order.
pub open spec fn signature_specs(ctx: SolverContext, offsets: Seq<u32>) -> Seq<ShellSpec>
    decreases offsets.len(),
{
    if offsets.len() == 0 {
        Seq::empty()
    } else {
        let prev = signature_specs(ctx, offsets.drop_last());
        match first_with_key(ctx.signature_returns.signatures@, offsets.last()) {
            Some(summary) => prev.push(signature_shell_spec(summary)),
            None => prev,
        }
    }
}

/// The shells of the loops that have an entry, in order.
pub open spec fn for_range_specs(ctx: SolverContext, offsets: Seq<u32>) -> Seq<ShellSpec>
    decreases offsets.len(),
{
    if offsets.len() == 0 {
        Seq::empty()
    } else {
        let prev = for_range_specs(ctx, offsets.drop_last());
        match first_with_key(ctx.for_range_iters.loops@, offsets.last()) {
            Some(summary) => prev.push(for_range_shell_spec(summary, Some(ctx.signature_returns))),
            None => prev,
        }
    }
}

/// The local shells of a component, in the order they are merged.
pub open spec fn local_specs(
    ctx: SolverContext,
    decl_ids: Seq<u32>,
    member_targets: Seq<u32>,
    signature_offsets: Seq<u32>,
    loop_offsets: Seq<u32>,
    includes_module_export: bool,
) -> Seq<ShellSpec> {
    decl_specs(ctx, decl_ids) + decl_init_specs(ctx, decl_ids) + member_specs(ctx, member_targets) + member_init_specs(
        ctx,
        member_targets,
    ) + signature_specs(ctx, signature_offsets) + for_range_specs(ctx, loop_offsets) + if includes_module_export {
        seq![bare_spec(spec_module_export_state(ctx.module_export))]
    } else {
        Seq::empty()
    }
}

pub proof fn lemma_shells_are_push(
    views: Seq<(SalsaSemanticResolveStateSummary, Seq<u32>)>,
    specs: Seq<ShellSpec>,
    v: (SalsaSemanticResolveStateSummary, Seq<u32>),
    sp: ShellSpec,
)
    requires
        shells_are(views, specs),
        shell_is(v, sp.0, sp.1),
    ensures
        shells_are(views.push(v), specs.push(sp)),
{
    assert forall|i: int| 0 <= i < views.push(v).len() implies shell_is(
        #[trigger] views.push(v)[i],
        specs.push(sp)[i].0,
        specs.push(sp)[i].1,
    ) by {
        if i < views.len() {
            assert(views.push(v)[i] == views[i]);
            assert(specs.push(sp)[i] == specs[i]);
        }
    }
}

pub proof fn lemma_shells_are_concat(
    a: Seq<(SalsaSemanticResolveStateSummary, Seq<u32>)>,
    sa: Seq<ShellSpec>,
    b: Seq<(SalsaSemanticResolveStateSummary, Seq<u32>)>,
    sb: Seq<ShellSpec>,
)
    requires
        shells_are(a, sa),
        shells_are(b, sb),
    ensures
        shells_are(a + b, sa + sb),
{
    assert forall|i: int| 0 <= i < (a + b).len() implies shell_is(#[trigger] (a + b)[i], (sa + sb)[i].0, (sa + sb)[i].1) by {
        if i < a.len() {
            assert((a + b)[i] == a[i]);
            assert((sa + sb)[i] == sa[i]);
        } else {
            assert((a + b)[i] == b[i - a.len()]);
            assert((sa + sb)[i] == sb[i - sa.len()]);
        }
    }
}

fn push_shell(
    shells: &mut Vec<SalsaSemanticValueShellSummary>,
    s: SalsaSemanticValueShellSummary,
    Ghost(specs): Ghost<Seq<ShellSpec>>,
    Ghost(sp): Ghost<ShellSpec>,
)
    requires
        shells_are(shell_views(old(shells)@), specs),
        shell_is(s@, sp.0, sp.1),
    ensures
        shells_are(shell_views(final(shells)@), specs.push(sp)),
{
    let ghost before = shell_views(shells@);
    shells.push(s);
    proof {
        assert(shell_views(shells@) =~= before.push(s@));
        lemma_shells_are_push(before, specs, s@, sp);
    }
}

fn append_shells(dst: &mut Vec<SalsaSemanticValueShellSummary>, src: Vec<SalsaSemanticValueShellSummary>)
    ensures
        shell_views(final(dst)@) == shell_views(old(dst)@) + shell_views(src@),
{
    let mut src = src;
    let ghost s = src@;
    dst.append(&mut src);
    assert(shell_views(dst@) =~= shell_views(old(dst)@) + shell_views(s));
}

fn decl_shells(ctx: Ghost<SolverContext>, decl_types: &SalsaDeclTypeQueryIndex, ids: &Vec<u32>) -> (r: Vec<
    SalsaSemanticValueShellSummary,
>)
    requires
        ctx@.decl_types == *decl_types,
    ensures
        shells_are(shell_views(r@), decl_specs(ctx@, ids@)),
{
    let mut r: Vec<SalsaSemanticValueShellSummary> = Vec::new();
    let mut k: usize = 0;
    while k < ids.len()
        invariant
            ctx@.decl_types == *decl_types,
            k <= ids@.len(),
            shells_are(shell_views(r@), decl_specs(ctx@, ids@.take(k as int))),
        decreases ids@.len() - k,
    {
        assert(ids@.take(k + 1).drop_last() =~= ids@.take(k as int));
        let s = build_decl_value_shell(decl_types, ids[k]);
        proof { lemma_decl_shell(spec_find_decl_type_info(*decl_types, ids@[k as int]), s@); }
        push_shell(&mut r, s, Ghost(decl_specs(ctx@, ids@.take(k as int))), Ghost(decl_shell_spec(spec_find_decl_type_info(*decl_types, ids@[k as int]))));
        k = k + 1;
    }
    assert(ids@.take(k as int) =~= ids@);
    r
}

/// The context's fields are the given indexes.
pub open spec fn ctx_is(
    ctx: SolverContext,
    decl_types: SalsaDeclTypeQueryIndex,
    member_types: SalsaMemberTypeQueryIndex,
    signature_returns: SalsaSignatureReturnQueryIndex,
    for_range_iters: SalsaForRangeIterQueryIndex,
    use_sites: SalsaUseSiteIndexSummary,
    explain: SalsaSignatureExplainIndex,
) -> bool {
    &&& ctx.decl_types == decl_types
    &&& ctx.member_types == member_types
    &&& ctx.signature_returns == signature_returns
    &&& ctx.for_range_iters == for_range_iters
    &&& ctx.use_sites == use_sites
    &&& ctx.explain == explain
}

fn decl_init_shells(
    ctx: Ghost<SolverContext>,
    decl_types: &SalsaDeclTypeQueryIndex,
    member_types: &SalsaMemberTypeQueryIndex,
    signature_returns: &SalsaSignatureReturnQueryIndex,
    for_range_iters: &SalsaForRangeIterQueryIndex,
    use_sites: &SalsaUseSiteIndexSummary,
    explain: &SalsaSignatureExplainIndex,
    ids: &Vec<u32>,
) -> (r: Vec<SalsaSemanticValueShellSummary>)
    requires
        ctx_is(ctx@, *decl_types, *member_types, *signature_returns, *for_range_iters, *use_sites, *explain),
    ensures
        shells_are(shell_views(r@), decl_init_specs(ctx@, ids@)),
{
    let mut r: Vec<SalsaSemanticValueShellSummary> = Vec::new();
    let mut k: usize = 0;
    while k < ids.len()
        invariant
            ctx_is(ctx@, *decl_types, *member_types, *signature_returns, *for_range_iters, *use_sites, *explain),
            k <= ids@.len(),
            shells_are(shell_views(r@), decl_init_specs(ctx@, ids@.take(k as int))),
        decreases ids@.len() - k,
    {
        assert(ids@.take(k + 1).drop_last() =~= ids@.take(k as int));
        let ghost prev = decl_init_specs(ctx@, ids@.take(k as int));
        match find_decl_type_info(decl_types, ids[k]) {
            Some(d) => match d.initializer_offset {
                Some(x) => {
                    let o = build_semantic_value_shell_from_initializer_expr(
                        x,
                        d.value_result_index,
                        d.source_call_syntax_id,
                        decl_types,
                        member_types,
                        signature_returns,
                        use_sites,
                        explain,
                    );
                    match o {
                        Some(sh) => {
                            let ghost sp = ctx_initializer_spec(ctx@, x, d.value_result_index, d.source_call_syntax_id).unwrap();
                            push_shell(&mut r, sh, Ghost(prev), Ghost(sp));
                        },
                        None => {},
                    }
                },
                None => {},
            },
            None => {},
        }
        k = k + 1;
    }
    assert(ids@.take(k as int) =~= ids@);
    r
}

fn member_shells(ctx: Ghost<SolverContext>, member_types: &SalsaMemberTypeQueryIndex, targets: &Vec<u32>) -> (r: Vec<
    SalsaSemanticValueShellSummary,
>)
    requires
        ctx@.member_types == *member_types,
    ensures
        shells_are(shell_views(r@), member_specs(ctx@, targets@)),
{
    let mut r: Vec<SalsaSemanticValueShellSummary> = Vec::new();
    let mut k: usize = 0;
    while k < targets.len()
        invariant
            ctx@.member_types == *member_types,
            k <= targets@.len(),
            shells_are(shell_views(r@), member_specs(ctx@, targets@.take(k as int))),
        decreases targets@.len() - k,
    {
        assert(targets@.take(k + 1).drop_last() =~= targets@.take(k as int));
        let s = build_member_value_shell(member_types, targets[k]);
        proof { lemma_member_shell(spec_find_member_type_info(*member_types, targets@[k as int]), s@); }
        push_shell(
            &mut r,
            s,
            Ghost(member_specs(ctx@, targets@.take(k as int))),
            Ghost(member_shell_spec(spec_find_member_type_info(*member_types, targets@[k as int]))),
        );
        k = k + 1;
    }
    assert(targets@.take(k as int) =~= targets@);
    r
}

fn candidate_init_shells(
    ctx: Ghost<SolverContext>,
    decl_types: &SalsaDeclTypeQueryIndex,
    member_types: &SalsaMemberTypeQueryIndex,
    signature_returns: &SalsaSignatureReturnQueryIndex,
    for_range_iters: &SalsaForRangeIterQueryIndex,
    use_sites: &SalsaUseSiteIndexSummary,
    explain: &SalsaSignatureExplainIndex,
    candidates: &Vec<SalsaTypeCandidateSummary>,
) -> (r: Vec<SalsaSemanticValueShellSummary>)
    requires
        ctx_is(ctx@, *decl_types, *member_types, *signature_returns, *for_range_iters, *use_sites, *explain),
    ensures
        shells_are(shell_views(r@), candidate_init_specs(ctx@, candidates@)),
{
    let mut r: Vec<SalsaSemanticValueShellSummary> = Vec::new();
    let mut k: usize = 0;
    while k < candidates.len()
        invariant
            ctx_is(ctx@, *decl_types, *member_types, *signature_returns, *for_range_iters, *use_sites, *explain),
            k <= candidates@.len(),
            shells_are(shell_views(r@), candidate_init_specs(ctx@, candidates@.take(k as int))),
        decreases candidates@.len() - k,
    {
        assert(candidates@.take(k + 1).drop_last() =~= candidates@.take(k as int));
        let ghost prev = candidate_init_specs(ctx@, candidates@.take(k as int));
        let c = &candidates[k];
        match c.initializer_offset {
            Some(x) => {
                let o = build_semantic_value_shell_from_initializer_expr(
                    x,
                    c.value_result_index,
                    c.source_call_syntax_id,
                    decl_types,
                    member_types,
                    signature_returns,
                    use_sites,
                    explain,
                );
                match o {
                    Some(sh) => {
                        let ghost sp = ctx_initializer_spec(ctx@, x, c.value_result_index, c.source_call_syntax_id).unwrap();
                        push_shell(&mut r, sh, Ghost(prev), Ghost(sp));
                    },
                    None => {},
                }
            },
            None => {},
        }
        k = k + 1;
    }
    assert(candidates@.take(k as int) =~= candidates@);
    r
}

fn member_init_shells(
    ctx: Ghost<SolverContext>,
    decl_types: &SalsaDeclTypeQueryIndex,
    member_types: &SalsaMemberTypeQueryIndex,
    signature_returns: &SalsaSignatureReturnQueryIndex,
    for_range_iters: &SalsaForRangeIterQueryIndex,
    use_sites: &SalsaUseSiteIndexSummary,
    explain: &SalsaSignatureExplainIndex,
    targets: &Vec<u32>,
) -> (r: Vec<SalsaSemanticValueShellSummary>)
    requires
        ctx_is(ctx@, *decl_types, *member_types, *signature_returns, *for_range_iters, *use_sites, *explain),
    ensures
        shells_are(shell_views(r@), member_init_specs(ctx@, targets@)),
{
    let mut r: Vec<SalsaSemanticValueShellSummary> = Vec::new();
    let mut k: usize = 0;
    while k < targets.len()
        invariant
            ctx_is(ctx@, *decl_types, *member_types, *signature_returns, *for_range_iters, *use_sites, *explain),
            k <= targets@.len(),
            shells_are(shell_views(r@), member_init_specs(ctx@, targets@.take(k as int))),
        decreases targets@.len() - k,
    {
        assert(targets@.take(k + 1).drop_last() =~= targets@.take(k as int));
        let ghost prev = member_init_specs(ctx@, targets@.take(k as int));
        let ghost before = shell_views(r@);
        match find_member_type_info(member_types, targets[k]) {
            Some(m) => {
                let more = candidate_init_shells(
                    ctx,
                    decl_types,
                    member_types,
                    signature_returns,
                    for_range_iters,
                    use_sites,
                    explain,
                    &m.candidates,
                );
                let ghost mv = shell_views(more@);
                append_shells(&mut r, more);
                proof { lemma_shells_are_concat(before, prev, mv, candidate_init_specs(ctx@, m.candidates@)); }
            },
            None => {
                assert(prev + Seq::<ShellSpec>::empty() =~= prev);
            },
        }
        k = k + 1;
    }
    assert(targets@.take(k as int) =~= targets@);
    r
}

fn signature_shells(
    ctx: Ghost<SolverContext>,
    signature_returns: &SalsaSignatureReturnQueryIndex,
    offsets: &Vec<u32>,
) -> (r: Vec<SalsaSemanticValueShellSummary>)
    requires
        ctx@.signature_returns == *signature_returns,
    ensures
        shells_are(shell_views(r@), signature_specs(ctx@, offsets@)),
{
    let mut r: Vec<SalsaSemanticValueShellSummary> = Vec::new();
    let mut k: usize = 0;
    while k < offsets.len()
        invariant
            ctx@.signature_returns == *signature_returns,
            k <= offsets@.len(),
            shells_are(shell_views(r@), signature_specs(ctx@, offsets@.take(k as int))),
        decreases offsets@.len() - k,
    {
        assert(offsets@.take(k + 1).drop_last() =~= offsets@.take(k as int));
        let ghost prev = signature_specs(ctx@, offsets@.take(k as int));
        match find_signature_return_query_at(signature_returns, offsets[k]) {
            Some(summary) => {
                let s = build_semantic_value_shell_from_signature_return(summary);
                proof { lemma_signature_shell(*summary, s@); }
                push_shell(&mut r, s, Ghost(prev), Ghost(signature_shell_spec(*summary)));
            },
            None => {},
        }
        k = k + 1;
    }
    assert(offsets@.take(k as int) =~= offsets@);
    r
}

fn for_range_shells(
    ctx: Ghost<SolverContext>,
    signature_returns: &SalsaSignatureReturnQueryIndex,
    for_range_iters: &SalsaForRangeIterQueryIndex,
    offsets: &Vec<u32>,
) -> (r: Vec<SalsaSemanticValueShellSummary>)
    requires
        ctx@.signature_returns == *signature_returns,
        ctx@.for_range_iters == *for_range_iters,
    ensures
        shells_are(shell_views(r@), for_range_specs(ctx@, offsets@)),
{
    let mut r: Vec<SalsaSemanticValueShellSummary> = Vec::new();
    let mut k: usize = 0;
    while k < offsets.len()
        invariant
            ctx@.signature_returns == *signature_returns,
            ctx@.for_range_iters == *for_range_iters,
            k <= offsets@.len(),
            shells_are(shell_views(r@), for_range_specs(ctx@, offsets@.take(k as int))),
        decreases offsets@.len() - k,
    {
        assert(offsets@.take(k + 1).drop_last() =~= offsets@.take(k as int));
        let ghost prev = for_range_specs(ctx@, offsets@.take(k as int));
        match find_for_range_iter_query_at(for_range_iters, offsets[k]) {
            Some(summary) => {
                let s = build_semantic_value_shell_from_for_range_iter_source(summary, Some(signature_returns));
                proof { lemma_for_range_shell(*summary, Some(*signature_returns), s@); }
                push_shell(&mut r, s, Ghost(prev), Ghost(for_range_shell_spec(*summary, Some(*signature_returns))));
            },
            None => {},
        }
        k = k + 1;
    }
    assert(offsets@.take(k as int) =~= offsets@);
    r
}

/// The fixed-point shells of the predecessors' results, in order.
pub open spec fn fixedpoint_views(preds: Seq<SalsaSemanticSolverComponentResultSummary>) -> Seq<
    (SalsaSemanticResolveStateSummary, Seq<u32>),
> {
    preds.map_values(|r: SalsaSemanticSolverComponentResultSummary| r.fixedpoint_value_shell@)
}

/// The states that a list of shell descriptions gives.
pub open spec fn spec_states(specs: Seq<ShellSpec>) -> Seq<SalsaSemanticResolveStateSummary> {
    specs.map_values(|p: ShellSpec| p.0)
}

/// Some description accepts `x`.
pub open spec fn some_spec_accepts(specs: Seq<ShellSpec>, x: u32) -> bool {
    exists|i: int| 0 <= i < specs.len() && (specs[i].1)(x)
}

pub proof fn lemma_value_merge(
    inputs: Seq<(SalsaSemanticResolveStateSummary, Seq<u32>)>,
    locals: Seq<(SalsaSemanticResolveStateSummary, Seq<u32>)>,
    specs: Seq<ShellSpec>,
    x: u32,
)
    requires
        shells_are(locals, specs),
    ensures
        shell_states(inputs + locals) == shell_states(inputs) + spec_states(specs),
        spec_some_candidate(inputs + locals, x) <==> (spec_some_candidate(inputs, x) || some_spec_accepts(specs, x)),
{
    assert(shell_states(inputs + locals) =~= shell_states(inputs) + spec_states(specs)) by {
        assert forall|i: int| 0 <= i < (inputs + locals).len() implies shell_states(inputs + locals)[i] == (shell_states(
            inputs,
        ) + spec_states(specs))[i] by {
            if i >= inputs.len() {
                assert(shell_is(locals[i - inputs.len()], specs[i - inputs.len()].0, specs[i - inputs.len()].1));
            }
        }
    }
    let all = inputs + locals;
    if spec_some_candidate(all, x) {
        let i = choose|i: int| 0 <= i < all.len() && all[i].1.contains(x);
        if i >= inputs.len() {
            let j = i - inputs.len();
            assert(shell_is(locals[j], specs[j].0, specs[j].1));
            assert((specs[j].1)(x));
        } else {
            assert(all[i] == inputs[i]);
        }
    }
    if spec_some_candidate(inputs, x) {
        let i = choose|i: int| 0 <= i < inputs.len() && inputs[i].1.contains(x);
        assert(all[i] == inputs[i]);
    }
    if some_spec_accepts(specs, x) {
        let j = choose|j: int| 0 <= j < specs.len() && (specs[j].1)(x);
        assert(shell_is(locals[j], specs[j].0, specs[j].1));
        assert(all[inputs.len() + j] == locals[j]);
    }
}

/// A component result's view.
pub type ResultView = <SalsaSemanticSolverComponentResultSummary as View>::V;

/// The fixed-point shells of results, in order.
pub open spec fn pred_fixedpoints(preds: Seq<ResultView>) -> Seq<(SalsaSemanticResolveStateSummary, Seq<u32>)> {
    preds.map_values(|v: ResultView| v.2.4)
}

/// The context made of the given indexes and module export.
pub open spec fn solver_ctx(
    decl_types: SalsaDeclTypeQueryIndex,
    member_types: SalsaMemberTypeQueryIndex,
    signature_returns: SalsaSignatureReturnQueryIndex,
    for_range_iters: SalsaForRangeIterQueryIndex,
    use_sites: SalsaUseSiteIndexSummary,
    explain: SalsaSignatureExplainIndex,
    module_export: Option<&SalsaModuleExportSemanticSummary>,
) -> SolverContext {
    SolverContext {
        decl_types,
        member_types,
        signature_returns,
        for_range_iters,
        use_sites,
        explain,
        module_export: match module_export {
            Some(m) => Some(*m),
            None => None,
        },
    }
}

/// `r` is the result of solving `component` in `ctx` after the predecessor
/// results `preds`: its declarations, members, signatures and loops (each
/// increasing, each once) and whether it holds the module export; the
/// predecessors it consumed; the shell that they pass in (their fixed-point
/// shells merged), what of it propagates, the component's own shells merged, all
/// of these merged, and its fixed point.
pub open spec fn spec_component_result(
    component: SalsaSemanticGraphSccComponentSummary,
    ctx: SolverContext,
    preds: Seq<ResultView>,
    r: SalsaSemanticSolverComponentResultSummary,
) -> bool {
    let specs = local_specs(
        ctx,
        r.decl_ids@,
        r.member_targets@,
        r.signature_offsets@,
        r.for_range_loop_offsets@,
        r.includes_module_export,
    );
    let fv = pred_fixedpoints(preds);
    &&& r.component_id == component.component_id
    &&& r.is_cycle == component.is_cycle
    &&& strictly_sorted(r.decl_ids@)
    &&& (forall|x: u32| #[trigger] r.decl_ids@.contains(x) <==> component.nodes@.contains(SalsaSemanticGraphNodeSummary::DeclValue(x)))
    &&& strictly_sorted(r.member_targets@)
    &&& (forall|x: u32| #[trigger] r.member_targets@.contains(x) <==> component.nodes@.contains(SalsaSemanticGraphNodeSummary::MemberValue(x)))
    &&& strictly_sorted(r.signature_offsets@)
    &&& (forall|x: u32| #[trigger] r.signature_offsets@.contains(x) <==> component.nodes@.contains(SalsaSemanticGraphNodeSummary::SignatureReturn(x)))
    &&& strictly_sorted(r.for_range_loop_offsets@)
    &&& (forall|x: u32| #[trigger] r.for_range_loop_offsets@.contains(x) <==> component.nodes@.contains(SalsaSemanticGraphNodeSummary::ForRangeIter(x)))
    &&& r.includes_module_export == component.nodes@.contains(SalsaSemanticGraphNodeSummary::ModuleExport)
    &&& strictly_sorted_usize(r.consumed_predecessor_component_ids@)
    &&& (forall|id: usize|
        #[trigger] r.consumed_predecessor_component_ids@.contains(id) <==> exists|i: int|
            0 <= i < preds.len() && preds[i].0.0 == id)
    &&& r.input_value_shell.state == spec_strongest_state(shell_states(fv))
    &&& spec_is_candidate_union(fv, r.input_value_shell.candidate_type_offsets@)
    &&& r.propagated_value_shell@ == spec_propagated(r.input_value_shell@, preds.len() > 0)
    &&& shell_is(r.local_value_shell@, spec_strongest_state(spec_states(specs)), |x: u32| some_spec_accepts(specs, x))
    &&& r.value_shell.state == spec_strongest_state(shell_states(fv) + spec_states(specs))
    &&& strictly_sorted(r.value_shell.candidate_type_offsets@)
    &&& (forall|x: u32|
        #[trigger] r.value_shell.candidate_type_offsets@.contains(x) <==> (spec_some_candidate(fv, x)
            || some_spec_accepts(specs, x)))
    &&& spec_step(
        spec_propagated(r.input_value_shell@, preds.len() > 0),
        r.local_value_shell@,
        None,
        r.fixedpoint_value_shell@,
    )
    &&& spec_step(
        spec_propagated(r.input_value_shell@, preds.len() > 0),
        r.local_value_shell@,
        Some(r.fixedpoint_value_shell@),
        r.fixedpoint_value_shell@,
    )
    &&& r.fixedpoint_iterations == (if component.is_cycle { 1usize } else { 0usize })
}

/// Solves one component of the semantic graph after its predecessors.
pub fn build_semantic_solver_component_result_summary(
    component: &SalsaSemanticGraphSccComponentSummary,
    decl_types: &SalsaDeclTypeQueryIndex,
    member_types: &SalsaMemberTypeQueryIndex,
    signature_returns: &SalsaSignatureReturnQueryIndex,
    for_range_iters: &SalsaForRangeIterQueryIndex,
    use_sites: &SalsaUseSiteIndexSummary,
    signature_explain_index: &SalsaSignatureExplainIndex,
    module_export: Option<&SalsaModuleExportSemanticSummary>,
    predecessor_results: &[SalsaSemanticSolverComponentResultSummary],
) -> (r: SalsaSemanticSolverComponentResultSummary)
    ensures
        spec_component_result(
            *component,
            solver_ctx(
                *decl_types,
                *member_types,
                *signature_returns,
                *for_range_iters,
                *use_sites,
                *signature_explain_index,
                module_export,
            ),
            crate::solver_execution::result_views(predecessor_results@),
            r,
        ),
{
    let ghost ctx = SolverContext {
        decl_types: *decl_types,
        member_types: *member_types,
        signature_returns: *signature_returns,
        for_range_iters: *for_range_iters,
        use_sites: *use_sites,
        explain: *signature_explain_index,
        module_export: match module_export {
            Some(m) => Some(*m),
            None => None,
        },
    };
    let ghost nodes = component.nodes@;
    let mut decl_ids: Vec<u32> = Vec::new();
    let mut member_targets: Vec<u32> = Vec::new();
    let mut signature_offsets: Vec<u32> = Vec::new();
    let mut for_range_loop_offsets: Vec<u32> = Vec::new();
    let mut includes_module_export = false;
    let mut i: usize = 0;
    while i < component.nodes.len()
        invariant
            nodes == component.nodes@,
            i <= nodes.len(),
            strictly_sorted(decl_ids@),
            strictly_sorted(member_targets@),
            strictly_sorted(signature_offsets@),
            strictly_sorted(for_range_loop_offsets@),
            forall|x: u32| #[trigger] decl_ids@.contains(x) <==> nodes.take(i as int).contains(SalsaSemanticGraphNodeSummary::DeclValue(x)),
            forall|x: u32| #[trigger] member_targets@.contains(x) <==> nodes.take(i as int).contains(SalsaSemanticGraphNodeSummary::MemberValue(x)),
            forall|x: u32| #[trigger] signature_offsets@.contains(x) <==> nodes.take(i as int).contains(SalsaSemanticGraphNodeSummary::SignatureReturn(x)),
            forall|x: u32| #[trigger] for_range_loop_offsets@.contains(x) <==> nodes.take(i as int).contains(SalsaSemanticGraphNodeSummary::ForRangeIter(x)),
            includes_module_export == nodes.take(i as int).contains(SalsaSemanticGraphNodeSummary::ModuleExport),
        decreases nodes.len() - i,
    {
        let ghost pre = nodes.take(i as int);
        let ghost next = nodes.take(i + 1);
        assert(next =~= pre.push(nodes[i as int]));
        assert forall|n: SalsaSemanticGraphNodeSummary| #[trigger] next.contains(n) <==> (pre.contains(n) || n == nodes[i as int]) by {
            if next.contains(n) {
                let k = choose|k: int| 0 <= k < next.len() && next[k] == n;
                if k < i {
                    assert(pre[k] == n);
                }
            }
            if pre.contains(n) {
                let k = choose|k: int| 0 <= k < pre.len() && pre[k] == n;
                assert(next[k] == n);
            }
            if n == nodes[i as int] {
                assert(next[i as int] == n);
            }
        }
        match component.nodes[i] {
            SalsaSemanticGraphNodeSummary::DeclValue(d) => insert_sorted_unique(&mut decl_ids, d),
            SalsaSemanticGraphNodeSummary::MemberValue(m) => insert_sorted_unique(&mut member_targets, m),
            SalsaSemanticGraphNodeSummary::SignatureReturn(o) => insert_sorted_unique(&mut signature_offsets, o),
            SalsaSemanticGraphNodeSummary::ForRangeIter(o) => insert_sorted_unique(&mut for_range_loop_offsets, o),
            SalsaSemanticGraphNodeSummary::ModuleExport => {
                includes_module_export = true;
            },
        }
        i = i + 1;
    }
    assert(nodes.take(i as int) =~= nodes);

    let mut local_shells = decl_shells(Ghost(ctx), decl_types, &decl_ids);
    let ghost specs0 = decl_specs(ctx, decl_ids@);
    let more = decl_init_shells(
        Ghost(ctx),
        decl_types,
        member_types,
        signature_returns,
        for_range_iters,
        use_sites,
        signature_explain_index,
        &decl_ids,
    );
    let ghost before = shell_views(local_shells@);
    let ghost mv = shell_views(more@);
    append_shells(&mut local_shells, more);
    proof { lemma_shells_are_concat(before, specs0, mv, decl_init_specs(ctx, decl_ids@)); }
    let ghost specs1 = specs0 + decl_init_specs(ctx, decl_ids@);

    let more = member_shells(Ghost(ctx), member_types, &member_targets);
    let ghost before = shell_views(local_shells@);
    let ghost mv = shell_views(more@);
    append_shells(&mut local_shells, more);
    proof { lemma_shells_are_concat(before, specs1, mv, member_specs(ctx, member_targets@)); }
    let ghost specs2 = specs1 + member_specs(ctx, member_targets@);

    let more = member_init_shells(
        Ghost(ctx),
        decl_types,
        member_types,
        signature_returns,
        for_range_iters,
        use_sites,
        signature_explain_index,
        &member_targets,
    );
    let ghost before = shell_views(local_shells@);
    let ghost mv = shell_views(more@);
    append_shells(&mut local_shells, more);
    proof { lemma_shells_are_concat(before, specs2, mv, member_init_specs(ctx, member_targets@)); }
    let ghost specs3 = specs2 + member_init_specs(ctx, member_targets@);

    let more = signature_shells(Ghost(ctx), signature_returns, &signature_offsets);
    let ghost before = shell_views(local_shells@);
    let ghost mv = shell_views(more@);
    append_shells(&mut local_shells, more);
    proof { lemma_shells_are_concat(before, specs3, mv, signature_specs(ctx, signature_offsets@)); }
    let ghost specs4 = specs3 + signature_specs(ctx, signature_offsets@);

    let more = for_range_shells(Ghost(ctx), signature_returns, for_range_iters, &for_range_loop_offsets);
    let ghost before = shell_views(local_shells@);
    let ghost mv = shell_views(more@);
    append_shells(&mut local_shells, more);
    proof { lemma_shells_are_concat(before, specs4, mv, for_range_specs(ctx, for_range_loop_offsets@)); }
    let ghost specs5 = specs4 + for_range_specs(ctx, for_range_loop_offsets@);

    let ghost specs = local_specs(
        ctx,
        decl_ids@,
        member_targets@,
        signature_offsets@,
        for_range_loop_offsets@,
        includes_module_export,
    );
    if includes_module_export {
        let s = build_semantic_value_shell_from_module_export(module_export);
        assert(s@.1 =~= Seq::<u32>::empty());
        push_shell(&mut local_shells, s, Ghost(specs5), Ghost(bare_spec(spec_module_export_state(ctx.module_export))));
        assert(specs5.push(bare_spec(spec_module_export_state(ctx.module_export))) =~= specs);
    } else {
        assert(specs5 + Seq::<ShellSpec>::empty() =~= specs5);
        assert(specs5 =~= specs);
    }

    let ghost preds = predecessor_results@;
    let mut input_shells: Vec<SalsaSemanticValueShellSummary> = Vec::new();
    let mut consumed: Vec<usize> = Vec::new();
    let mut k: usize = 0;
    while k < predecessor_results.len()
        invariant
            preds == predecessor_results@,
            k <= preds.len(),
            shell_views(input_shells@) == fixedpoint_views(preds.take(k as int)),
            strictly_sorted_usize(consumed@),
            forall|id: usize| #[trigger] consumed@.contains(id) <==> exists|j: int| 0 <= j < k && preds[j].component_id == id,
        decreases preds.len() - k,
    {
        let ghost before = shell_views(input_shells@);
        input_shells.push(clone_shell(&predecessor_results[k].fixedpoint_value_shell));
        assert(preds.take(k + 1) =~= preds.take(k as int).push(preds[k as int]));
        assert(shell_views(input_shells@) =~= before.push(preds[k as int].fixedpoint_value_shell@));
        assert(fixedpoint_views(preds.take(k + 1)) =~= fixedpoint_views(preds.take(k as int)).push(
            preds[k as int].fixedpoint_value_shell@,
        ));
        let ghost cbefore = consumed@;
        insert_sorted_unique_usize(&mut consumed, predecessor_results[k].component_id);
        assert forall|id: usize| #[trigger] consumed@.contains(id) <==> exists|j: int| 0 <= j < k + 1 && preds[j].component_id == id by {
            if consumed@.contains(id) && !cbefore.contains(id) {
                assert(preds[k as int].component_id == id);
            }
            if exists|j: int| 0 <= j < k + 1 && preds[j].component_id == id {
                let j = choose|j: int| 0 <= j < k + 1 && preds[j].component_id == id;
                if j < k {
                    assert(cbefore.contains(id));
                }
            }
        }
        k = k + 1;
    }
    assert(preds.take(k as int) =~= preds);
    let has_input = predecessor_results.len() > 0;

    let input_value_shell = merge_solver_value_shells(&input_shells);
    let propagated_value_shell = build_propagated_value_shell(&input_value_shell, has_input);
    let local_value_shell = merge_solver_value_shells(&local_shells);
    proof { lemma_merge_described(local_shells@, specs, local_value_shell@); }
    assert(spec_states(specs) =~= specs.map_values(|p: ShellSpec| p.0));

    let mut merged: Vec<SalsaSemanticValueShellSummary> = Vec::new();
    let mut k: usize = 0;
    while k < input_shells.len()
        invariant
            k <= input_shells@.len(),
            shell_views(merged@) == shell_views(input_shells@).take(k as int),
        decreases input_shells@.len() - k,
    {
        let ghost before = shell_views(merged@);
        merged.push(clone_shell(&input_shells[k]));
        assert(shell_views(merged@) =~= before.push(input_shells@[k as int]@));
        assert(shell_views(input_shells@).take(k + 1) =~= shell_views(input_shells@).take(k as int).push(
            input_shells@[k as int]@,
        ));
        k = k + 1;
    }
    assert(shell_views(input_shells@).take(k as int) =~= shell_views(input_shells@));
    let ghost local_views = shell_views(local_shells@);
    append_shells(&mut merged, local_shells);
    let value_shell = merge_solver_value_shells(&merged);
    proof {
        let fv = fixedpoint_views(preds);
        assert(shell_views(merged@) == fv + local_views);
        lemma_value_merge(fv, local_views, specs, 0);
        assert forall|x: u32| #[trigger] value_shell.candidate_type_offsets@.contains(x) <==> (spec_some_candidate(fv, x)
            || some_spec_accepts(specs, x)) by {
            lemma_value_merge(fv, local_views, specs, x);
        }
    }
    proof {
        let rv = crate::solver_execution::result_views(preds);
        assert(fixedpoint_views(preds) =~= pred_fixedpoints(rv));
        assert forall|id: usize| #[trigger] consumed@.contains(id) <==> (exists|j: int|
            0 <= j < rv.len() && rv[j].0.0 == id) by {
            if exists|j: int| 0 <= j < rv.len() && rv[j].0.0 == id {
                let j = choose|j: int| 0 <= j < rv.len() && rv[j].0.0 == id;
                assert(preds[j].component_id == id);
            }
            if consumed@.contains(id) {
                let j = choose|j: int| 0 <= j < preds.len() && preds[j].component_id == id;
                assert(rv[j].0.0 == id);
            }
        }
    }
    let (fixedpoint_value_shell, fixedpoint_iterations) = solve_component_fixedpoint(
        &input_value_shell,
        &local_value_shell,
        component.is_cycle,
        has_input,
    );
    SalsaSemanticSolverComponentResultSummary {
        component_id: component.component_id,
        decl_ids,
        member_targets,
        signature_offsets,
        for_range_loop_offsets,
        includes_module_export,
        consumed_predecessor_component_ids: consumed,
        input_value_shell,
        propagated_value_shell,
        local_value_shell,
        value_shell,
        fixedpoint_value_shell,
        fixedpoint_iterations,
        is_cycle: component.is_cycle,
    }
}

/// Index of the first component of `s` with id `id`, or -1.
pub open spec fn spec_component_index(s: Seq<SalsaSemanticGraphSccComponentSummary>, id: usize) -> int {
    if exists|i: int| 0 <= i < s.len() && (#[trigger] s[i]).component_id == id {
        choose|i: int|
            0 <= i < s.len() && (#[trigger] s[i]).component_id == id && forall|j: int|
                0 <= j < i ==> (#[trigger] s[j]).component_id != id
    } else {
        -1
    }
}

fn find_component(scc_index: &SalsaSemanticGraphSccIndex, id: usize) -> (r: Option<&SalsaSemanticGraphSccComponentSummary>)
    ensures
        ({
            let i = spec_component_index(scc_index.components@, id);
            match r {
                Some(c) => 0 <= i < scc_index.components@.len() && scc_index.components@[i] == *c,
                None => i == -1,
            }
        }),
{
    let ghost s = scc_index.components@;
    let mut i: usize = 0;
    while i < scc_index.components.len()
        invariant
            s == scc_index.components@,
            i <= s.len(),
            forall|j: int| 0 <= j < i ==> (#[trigger] s[j]).component_id != id,
        decreases s.len() - i,
    {
        if scc_index.components[i].component_id == id {
            let ghost k = choose|k: int|
                0 <= k < s.len() && (#[trigger] s[k]).component_id == id && forall|j: int|
                    0 <= j < k ==> (#[trigger] s[j]).component_id != id;
            assert(k == i) by {
                if k > i {
                    assert(s[i as int].component_id == id);
                }
            }
            return Some(&scc_index.components[i]);
        }
        i = i + 1;
    }
    None
}

/// The results recorded in `execution` for the components `ids`, in order,
/// skipping those without one.
pub open spec fn spec_found_results(execution: SalsaSemanticSolverExecutionSummary, ids: Seq<usize>) -> Seq<ResultView>
    decreases ids.len(),
{
    if ids.len() == 0 {
        Seq::empty()
    } else {
        let prev = spec_found_results(execution, ids.drop_last());
        let rv = result_views(execution.component_results@);
        let i = first_result_index(rv, ids.last());
        if i >= 0 { prev.push(rv[i]) } else { prev }
    }
}

/// The step that solves component `component_id`: none where the index has no
/// such component; else its result after the results of its predecessors
/// recorded so far, and the execution with the component completed with that
/// result.
pub open spec fn spec_step_summary(
    execution: SalsaSemanticSolverExecutionSummary,
    component_id: usize,
    scc_index: SalsaSemanticGraphSccIndex,
    ctx: SolverContext,
    r: Option<SalsaSemanticSolverStepSummary>,
) -> bool {
    let i = spec_component_index(scc_index.components@, component_id);
    match r {
        None => i == -1,
        Some(step) => {
            &&& 0 <= i < scc_index.components@.len()
            &&& step.completed_component_id == component_id
            &&& match step.component_result {
                Some(res) => {
                    let c = scc_index.components@[i];
                    &&& spec_component_result(c, ctx, spec_found_results(execution, c.predecessor_component_ids@), res)
                    &&& spec_complete(execution, component_id, Some(res@), step.next_execution)
                },
                None => false,
            }
        },
    }
}

/// Solves component `component_id` and records its result in the execution.
pub fn build_semantic_solver_step_summary(
    execution: &SalsaSemanticSolverExecutionSummary,
    component_id: usize,
    scc_index: &SalsaSemanticGraphSccIndex,
    decl_types: &SalsaDeclTypeQueryIndex,
    member_types: &SalsaMemberTypeQueryIndex,
    signature_returns: &SalsaSignatureReturnQueryIndex,
    for_range_iters: &SalsaForRangeIterQueryIndex,
    use_sites: &SalsaUseSiteIndexSummary,
    signature_explain_index: &SalsaSignatureExplainIndex,
    module_export: Option<&SalsaModuleExportSemanticSummary>,
) -> (r: Option<SalsaSemanticSolverStepSummary>)
    ensures
        spec_step_summary(
            *execution,
            component_id,
            *scc_index,
            solver_ctx(
                *decl_types,
                *member_types,
                *signature_returns,
                *for_range_iters,
                *use_sites,
                *signature_explain_index,
                module_export,
            ),
            r,
        ),
{
    let component = match find_component(scc_index, component_id) {
        Some(c) => c,
        None => return None,
    };
    let ids = &component.predecessor_component_ids;
    let mut predecessor_results: Vec<SalsaSemanticSolverComponentResultSummary> = Vec::new();
    let mut k: usize = 0;
    while k < ids.len()
        invariant
            k <= ids@.len(),
            result_views(predecessor_results@) == spec_found_results(*execution, ids@.take(k as int)),
        decreases ids@.len() - k,
    {
        assert(ids@.take(k + 1).drop_last() =~= ids@.take(k as int));
        let ghost before = result_views(predecessor_results@);
        match find_semantic_solver_component_result(execution, ids[k]) {
            Some(res) => {
                predecessor_results.push(res);
                assert(result_views(predecessor_results@) =~= before.push(res@));
            },
            None => {},
        }
        k = k + 1;
    }
    assert(ids@.take(k as int) =~= ids@);
    let result = build_semantic_solver_component_result_summary(
        component,
        decl_types,
        member_types,
        signature_returns,
        for_range_iters,
        use_sites,
        signature_explain_index,
        module_export,
        predecessor_results.as_slice(),
    );
    let copy = clone_component_result(&result);
    let next_execution = complete_semantic_solver_execution_task_with_result(execution, component_id, Some(result));
    Some(SalsaSemanticSolverStepSummary { completed_component_id: component_id, component_result: Some(copy), next_execution })
}

/// Solves the ready component with the least id, if there is one, and records
/// its result.
pub fn step_semantic_solver_execution_with_signature_returns(
    execution: &SalsaSemanticSolverExecutionSummary,
    scc_index: &SalsaSemanticGraphSccIndex,
    decl_types: &SalsaDeclTypeQueryIndex,
    member_types: &SalsaMemberTypeQueryIndex,
    signature_returns: &SalsaSignatureReturnQueryIndex,
    for_range_iters: &SalsaForRangeIterQueryIndex,
    use_sites: &SalsaUseSiteIndexSummary,
    signature_explain_index: &SalsaSignatureExplainIndex,
    module_export: Option<&SalsaModuleExportSemanticSummary>,
) -> (r: Option<SalsaSemanticSolverStepSummary>)
    ensures
        execution.ready_component_ids@.len() == 0 ==> r.is_none(),
        execution.ready_component_ids@.len() > 0 ==> exists|m: usize|
            #[trigger] is_min_id(execution.ready_component_ids@, m) && if first_exec_task_index(
                exec_task_views(execution.tasks@),
                m,
            ) >= 0 {
                spec_step_summary(
                    *execution,
                    m,
                    *scc_index,
                    solver_ctx(
                        *decl_types,
                        *member_types,
                        *signature_returns,
                        *for_range_iters,
                        *use_sites,
                        *signature_explain_index,
                        module_export,
                    ),
                    r,
                )
            } else {
                r.is_none()
            },
{
    let found = find_next_ready_semantic_solver_execution_task(execution);
    if execution.ready_component_ids.len() == 0 {
        return None;
    }
    let ghost tv = exec_task_views(execution.tasks@);
    let ghost m = choose|m: usize|
        #[trigger] is_min_id(execution.ready_component_ids@, m) && {
            let i = first_exec_task_index(tv, m);
            match found {
                Some(t) => i >= 0 && t@ == tv[i],
                None => i == -1,
            }
        };
    proof {
        lemma_first_exec_task_index(tv, m);
    }
    let task = match found {
        Some(t) => t,
        None => {
            assert(is_min_id(execution.ready_component_ids@, m));
            return None;
        },
    };
    assert(task.component_id == m);
    assert(is_min_id(execution.ready_component_ids@, m));
    build_semantic_solver_step_summary(
        execution,
        task.component_id,
        scc_index,
        decl_types,
        member_types,
        signature_returns,
        for_range_iters,
        use_sites,
        signature_explain_index,
        module_export,
    )
}

} // verus!
