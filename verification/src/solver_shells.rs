//! The shells the solver starts from: what the declared and inferred types of
//! declarations, members, signature returns and `for ... in` loops say.
use vstd::prelude::*;

use crate::offsets::{insert_all_sorted_unique, insert_sorted_unique, strictly_sorted};
use crate::lookup::{Keyed, find_first_index, first_with_key, lemma_first_index_with_key};
use crate::semantic_solver::{
    SalsaSemanticResolveStateSummary, SalsaSemanticValueShellSummary, join_semantic_resolve_states,
    merge_solver_value_shells, semantic_resolve_state_from_for_range_iter, semantic_resolve_state_from_signature_return,
    shell_states, shell_views, spec_join_states, spec_semantic_from_for_range_iter,
    spec_semantic_from_signature_return, spec_strongest_state,
};
use crate::signature_model::{
    CandidateView, ForRangeSourceView, ReturnValueView, SalsaCallExplainSummary, SalsaForRangeIterQuerySummary,
    SalsaForRangeIterSourceKindSummary, SalsaForRangeIterSourceSummary, SalsaDocTypeRef, SalsaSignatureReturnExprKindSummary,
    SalsaSignatureReturnQueryIndex, SalsaSignatureReturnQuerySummary, SalsaSignatureReturnValueSummary,
    SalsaProgramPointMemberTypeInfoSummary, SalsaProgramPointTypeInfoSummary, candidates_view, return_rows_view,
};
use crate::type_info::{
    SalsaDeclTypeInfoSummary, SalsaDeclTypeQueryIndex, SalsaMemberTypeInfoSummary, SalsaMemberTypeQueryIndex,
    SalsaTypeCandidateSummary, find_decl_type_info, find_member_type_info, has_stable_initializer_evidence,
    spec_find_decl_type_info, spec_find_member_type_info, spec_is_stable_initializer,
};

verus! {

/// The shell `s` has state `state` and, increasing and without repeats, exactly
/// the candidates that `cand` accepts.
pub open spec fn shell_is(
    s: (SalsaSemanticResolveStateSummary, Seq<u32>),
    state: SalsaSemanticResolveStateSummary,
    cand: spec_fn(u32) -> bool,
) -> bool {
    &&& s.0 == state
    &&& strictly_sorted(s.1)
    &&& forall|x: u32| s.1.contains(x) <==> cand(x)
}

/// Some candidate declares the doc type `x`.
pub open spec fn some_candidate_declares(cs: Seq<CandidateView>, x: u32) -> bool {
    exists|i: int| 0 <= i < cs.len() && (#[trigger] cs[i]).explicit_type_offsets.contains(x)
}

/// The doc types that may stand for result `result_index` of a returned value:
/// those declared for it, those of the candidates of the name or member it is,
/// and those that the rows of the call it is give at that position.
pub open spec fn spec_value_candidate(v: ReturnValueView, result_index: usize, x: u32) -> bool {
    ||| v.doc_return_type_offsets.contains(x)
    ||| (v.name_type matches Some(cs) && some_candidate_declares(cs, x))
    ||| (v.member_type matches Some(cs) && some_candidate_declares(cs, x))
    ||| (v.call matches Some(call) && rows_give(call.returns, result_index, x))
}

/// A row of doc types gives `x` at position `result_index`.
pub open spec fn row_gives(
    row: (u32, Seq<crate::signature_model::SalsaSignatureReturnItemExplainSummary>),
    result_index: usize,
    x: u32,
) -> bool {
    result_index < row.1.len() && row.1[result_index as int].doc_type.type_ref == SalsaDocTypeRef::Node(x)
}

/// Some row gives `x` at position `result_index`.
pub open spec fn rows_give(
    rows: Seq<(u32, Seq<crate::signature_model::SalsaSignatureReturnItemExplainSummary>)>,
    result_index: usize,
    x: u32,
) -> bool {
    exists|k: int| 0 <= k < rows.len() && row_gives(#[trigger] rows[k], result_index, x)
}

} // verus!

verus! {

/// Adds the explicit doc types of every candidate to `set`.
fn insert_candidate_offsets(set: &mut Vec<u32>, candidates: &Vec<SalsaTypeCandidateSummary>)
    requires
        strictly_sorted(old(set)@),
    ensures
        strictly_sorted(final(set)@),
        forall|x: u32|
            final(set)@.contains(x) <==> (old(set)@.contains(x) || some_candidate_declares(
                candidates_view(candidates@),
                x,
            )),
{
    let ghost start = set@;
    let ghost cs = candidates_view(candidates@);
    let mut i: usize = 0;
    while i < candidates.len()
        invariant
            i <= candidates@.len(),
            cs == candidates_view(candidates@),
            strictly_sorted(set@),
            forall|x: u32| #[trigger] set@.contains(x) <==> (start.contains(x) || some_candidate_declares(cs.take(i as int), x)),
        decreases candidates@.len() - i,
    {
        let ghost before = set@;
        let ghost next = cs.take(i + 1);
        insert_all_sorted_unique(set, &candidates[i].explicit_type_offsets);
        proof {
            assert(cs[i as int] == candidates@[i as int]@);
            assert forall|x: u32| #[trigger] set@.contains(x) <==> (start.contains(x) || some_candidate_declares(
                next,
                x,
            )) by {
                assert(before.contains(x) <==> (start.contains(x) || some_candidate_declares(cs.take(i as int), x)));
                if some_candidate_declares(cs.take(i + 1), x) {
                    let k = choose|k: int| 0 <= k < cs.take(i + 1).len() && (#[trigger] cs.take(i + 1)[k]).explicit_type_offsets.contains(x);
                    if k < i {
                        assert(cs.take(i as int)[k] == cs.take(i + 1)[k]);
                    }
                }
                if some_candidate_declares(cs.take(i as int), x) {
                    let k = choose|k: int| 0 <= k < cs.take(i as int).len() && (#[trigger] cs.take(i as int)[k]).explicit_type_offsets.contains(x);
                    assert(cs.take(i + 1)[k] == cs.take(i as int)[k]);
                }
                if candidates@[i as int].explicit_type_offsets@.contains(x) {
                    assert(cs.take(i + 1)[i as int] == cs[i as int]);
                }
            }
        }
        i = i + 1;
        assert(cs.take(i as int) == next);
    }
    assert(cs.take(i as int) =~= cs);
}

/// Adds to `candidate_type_offsets` the doc types that may stand for result
/// `result_index` of a returned value. The set is kept increasing and without
/// repeats.
pub fn collect_signature_return_value_candidate_type_offsets(
    value: &SalsaSignatureReturnValueSummary,
    result_index: usize,
    candidate_type_offsets: &mut Vec<u32>,
)
    requires
        strictly_sorted(old(candidate_type_offsets)@),
    ensures
        strictly_sorted(final(candidate_type_offsets)@),
        forall|x: u32|
            final(candidate_type_offsets)@.contains(x) <==> (old(candidate_type_offsets)@.contains(x)
                || spec_value_candidate(value@, result_index, x)),
{
    let ghost start = candidate_type_offsets@;
    insert_all_sorted_unique(candidate_type_offsets, &value.doc_return_type_offsets);
    let ghost after_doc = candidate_type_offsets@;
    assert forall|x: u32| #[trigger] after_doc.contains(x) <==> (start.contains(x)
        || value@.doc_return_type_offsets.contains(x)) by {
        assert(value@.doc_return_type_offsets == value.doc_return_type_offsets@);
        assert(after_doc.contains(x) <==> (start.contains(x) || value.doc_return_type_offsets@.contains(x)));
    }
    if let Some(name_type) = &value.name_type {
        insert_candidate_offsets(candidate_type_offsets, &name_type.candidates);
    }
    let ghost after_name = candidate_type_offsets@;
    assert forall|x: u32| #[trigger] after_name.contains(x) <==> (after_doc.contains(x) || (value@.name_type matches Some(
        cs,
    ) && some_candidate_declares(cs, x))) by {}
    if let Some(member_type) = &value.member_type {
        insert_candidate_offsets(candidate_type_offsets, &member_type.candidates);
    }
    let ghost after_member = candidate_type_offsets@;
    assert forall|x: u32| #[trigger] after_member.contains(x) <==> (after_name.contains(x) || (value@.member_type matches Some(
        cs,
    ) && some_candidate_declares(cs, x))) by {}
    if let Some(call) = &value.call {
        let ghost rows = return_rows_view(call.returns@);
        let mut k: usize = 0;
        while k < call.returns.len()
            invariant
                rows == return_rows_view(call.returns@),
                k <= call.returns@.len(),
                strictly_sorted(candidate_type_offsets@),
                forall|x: u32|
                    #[trigger] candidate_type_offsets@.contains(x) <==> (after_member.contains(x) || rows_give(
                        rows.take(k as int),
                        result_index,
                        x,
                    )),
            decreases call.returns@.len() - k,
        {
            let row = &call.returns[k];
            let ghost before = candidate_type_offsets@;
            let ghost next = rows.take(k + 1);
            assert(rows[k as int] == row@);
            if result_index < row.items.len() {
                if let SalsaDocTypeRef::Node(type_offset) = row.items[result_index].doc_type.type_ref {
                    insert_sorted_unique(candidate_type_offsets, type_offset);
                }
            }
            proof {
                assert forall|x: u32|
                    #[trigger] candidate_type_offsets@.contains(x) <==> (after_member.contains(x) || rows_give(
                        next,
                        result_index,
                        x,
                    )) by {
                    assert(before.contains(x) <==> (after_member.contains(x) || rows_give(
                        rows.take(k as int),
                        result_index,
                        x,
                    )));
                    if rows_give(next, result_index, x) {
                        let j = choose|j: int| 0 <= j < next.len() && row_gives(#[trigger] next[j], result_index, x);
                        if j < k {
                            assert(rows.take(k as int)[j] == next[j]);
                        }
                    }
                    if rows_give(rows.take(k as int), result_index, x) {
                        let j = choose|j: int|
                            0 <= j < rows.take(k as int).len() && row_gives(#[trigger] rows.take(k as int)[j], result_index, x);
                        assert(next[j] == rows.take(k as int)[j]);
                    }
                    if row_gives(row@, result_index, x) {
                        assert(next[k as int] == row@);
                    }
                }
            }
            k = k + 1;
            assert(rows.take(k as int) == next);
        }
        assert(rows.take(k as int) =~= rows);
        assert(value@.call == Some(call@));
    }
    proof {
        assert forall|x: u32| #[trigger] candidate_type_offsets@.contains(x) <==> (start.contains(x)
            || spec_value_candidate(value@, result_index, x)) by {
            assert(after_doc.contains(x) <==> (start.contains(x) || value@.doc_return_type_offsets.contains(x)));
            assert(after_name.contains(x) <==> (after_doc.contains(x) || (value@.name_type matches Some(cs)
                && some_candidate_declares(cs, x))));
            assert(after_member.contains(x) <==> (after_name.contains(x) || (value@.member_type matches Some(cs)
                && some_candidate_declares(cs, x))));
        }
    }
}

/// The doc types that may stand for result `result_index` of a returned value,
/// increasing and without repeats.
pub fn signature_return_value_candidate_type_offsets(value: &SalsaSignatureReturnValueSummary, result_index: usize) -> (r:
    Vec<u32>)
    ensures
        strictly_sorted(r@),
        forall|x: u32| r@.contains(x) <==> spec_value_candidate(value@, result_index, x),
{
    let mut r: Vec<u32> = Vec::new();
    collect_signature_return_value_candidate_type_offsets(value, result_index, &mut r);
    r
}

} // verus!

verus! {

/// How well a returned value is resolved: resolved by declared doc types, by
/// being a literal, closure or table, or by what is known of its name, member or
/// call; a call that may go to several signatures is partial.
pub open spec fn spec_return_value_state(v: ReturnValueView) -> SalsaSemanticResolveStateSummary {
    if v.doc_return_type_offsets.len() > 0 {
        SalsaSemanticResolveStateSummary::Resolved
    } else {
        match v.kind {
            SalsaSignatureReturnExprKindSummary::Name => match v.name_type {
                Some(cs) => if cs.len() > 0 {
                    SalsaSemanticResolveStateSummary::Resolved
                } else {
                    SalsaSemanticResolveStateSummary::Unknown
                },
                None => SalsaSemanticResolveStateSummary::Unknown,
            },
            SalsaSignatureReturnExprKindSummary::Member => match v.member_type {
                Some(cs) => if cs.len() > 0 {
                    SalsaSemanticResolveStateSummary::Resolved
                } else {
                    SalsaSemanticResolveStateSummary::Unknown
                },
                None => SalsaSemanticResolveStateSummary::Unknown,
            },
            SalsaSignatureReturnExprKindSummary::Call => match v.call {
                Some(call) => spec_call_state(call),
                None => SalsaSemanticResolveStateSummary::Unknown,
            },
            SalsaSignatureReturnExprKindSummary::Literal => SalsaSemanticResolveStateSummary::Resolved,
            SalsaSignatureReturnExprKindSummary::Closure => SalsaSemanticResolveStateSummary::Resolved,
            SalsaSignatureReturnExprKindSummary::Table => SalsaSemanticResolveStateSummary::Resolved,
            SalsaSignatureReturnExprKindSummary::Other => SalsaSemanticResolveStateSummary::Unknown,
        }
    }
}

/// How well a call is resolved by what is known of it alone: resolved with a
/// resolved signature or returned doc types, partial with candidate signatures.
pub open spec fn spec_call_state(call: crate::signature_model::CallExplainView) -> SalsaSemanticResolveStateSummary {
    if call.resolved_signature_offset.is_some() || call.returns.len() > 0 {
        SalsaSemanticResolveStateSummary::Resolved
    } else if call.candidate_signature_offsets.len() > 0 {
        SalsaSemanticResolveStateSummary::Partial
    } else {
        SalsaSemanticResolveStateSummary::Unknown
    }
}

fn call_state(call: &SalsaCallExplainSummary) -> (r: SalsaSemanticResolveStateSummary)
    ensures
        r == spec_call_state(call@),
{
    if call.resolved_signature_offset.is_some() || call.returns.len() > 0 {
        SalsaSemanticResolveStateSummary::Resolved
    } else if call.candidate_signature_offsets.len() > 0 {
        SalsaSemanticResolveStateSummary::Partial
    } else {
        SalsaSemanticResolveStateSummary::Unknown
    }
}

/// Whether a returned value is resolved: it has declared doc types, or what it
/// is (a name or member with candidates, a call that resolves or documents its
/// returns, a literal, closure or table) resolves it.
pub fn signature_return_value_is_resolved(value: &SalsaSignatureReturnValueSummary) -> (r: bool)
    ensures
        r == (spec_return_value_state(value@) == SalsaSemanticResolveStateSummary::Resolved),
{
    matches!(semantic_resolve_state_from_signature_return_value(value), SalsaSemanticResolveStateSummary::Resolved)
}

/// How well a returned value is resolved: by its declared doc types, else by
/// what is known of the name, member or call it is.
pub fn semantic_resolve_state_from_signature_return_value(value: &SalsaSignatureReturnValueSummary) -> (r:
    SalsaSemanticResolveStateSummary)
    ensures
        r == spec_return_value_state(value@),
{
    if value.doc_return_type_offsets.len() > 0 {
        return SalsaSemanticResolveStateSummary::Resolved;
    }
    match value.kind {
        SalsaSignatureReturnExprKindSummary::Name => match &value.name_type {
            Some(info) => if info.candidates.len() > 0 {
                SalsaSemanticResolveStateSummary::Resolved
            } else {
                SalsaSemanticResolveStateSummary::Unknown
            },
            None => SalsaSemanticResolveStateSummary::Unknown,
        },
        SalsaSignatureReturnExprKindSummary::Member => match &value.member_type {
            Some(info) => if info.candidates.len() > 0 {
                SalsaSemanticResolveStateSummary::Resolved
            } else {
                SalsaSemanticResolveStateSummary::Unknown
            },
            None => SalsaSemanticResolveStateSummary::Unknown,
        },
        SalsaSignatureReturnExprKindSummary::Call => match &value.call {
            Some(call) => call_state(call),
            None => SalsaSemanticResolveStateSummary::Unknown,
        },
        SalsaSignatureReturnExprKindSummary::Literal => SalsaSemanticResolveStateSummary::Resolved,
        SalsaSignatureReturnExprKindSummary::Closure => SalsaSemanticResolveStateSummary::Resolved,
        SalsaSignatureReturnExprKindSummary::Table => SalsaSemanticResolveStateSummary::Resolved,
        SalsaSignatureReturnExprKindSummary::Other => SalsaSemanticResolveStateSummary::Unknown,
    }
}

/// The shell of a signature's return values: its return state, and the doc types
/// declared for its first returned value.
pub open spec fn spec_signature_return_shell(
    summary: SalsaSignatureReturnQuerySummary,
    s: (SalsaSemanticResolveStateSummary, Seq<u32>),
) -> bool {
    shell_is(
        s,
        spec_semantic_from_signature_return(summary.state),
        |x: u32| summary.values@.len() > 0 && summary.values@[0].doc_return_type_offsets@.contains(x),
    )
}

/// The shell of a signature's return values.
pub fn build_semantic_value_shell_from_signature_return(summary: &SalsaSignatureReturnQuerySummary) -> (r:
    SalsaSemanticValueShellSummary)
    ensures
        spec_signature_return_shell(*summary, r@),
{
    let mut candidate_type_offsets: Vec<u32> = Vec::new();
    if summary.values.len() > 0 {
        insert_all_sorted_unique(&mut candidate_type_offsets, &summary.values[0].doc_return_type_offsets);
    }
    SalsaSemanticValueShellSummary {
        state: semantic_resolve_state_from_signature_return(summary.state),
        candidate_type_offsets,
    }
}

/// The shell of result `result_index` of a signature: that of its returned value
/// at that position, or, without one, the signature's return state.
pub open spec fn spec_signature_return_slot_shell(
    summary: SalsaSignatureReturnQuerySummary,
    result_index: usize,
    s: (SalsaSemanticResolveStateSummary, Seq<u32>),
) -> bool {
    if result_index < summary.values@.len() {
        let v = summary.values@[result_index as int]@;
        shell_is(s, spec_return_value_state(v), |x: u32| spec_value_candidate(v, result_index, x))
    } else {
        shell_is(s, spec_semantic_from_signature_return(summary.state), |x: u32| false)
    }
}

fn build_semantic_value_shell_from_signature_return_slot(
    summary: &SalsaSignatureReturnQuerySummary,
    result_index: usize,
) -> (r: SalsaSemanticValueShellSummary)
    ensures
        spec_signature_return_slot_shell(*summary, result_index, r@),
{
    let mut candidate_type_offsets: Vec<u32> = Vec::new();
    let state = if result_index < summary.values.len() {
        let value = &summary.values[result_index];
        collect_signature_return_value_candidate_type_offsets(value, result_index, &mut candidate_type_offsets);
        semantic_resolve_state_from_signature_return_value(value)
    } else {
        semantic_resolve_state_from_signature_return(summary.state)
    };
    SalsaSemanticValueShellSummary { state, candidate_type_offsets }
}

} // verus!

verus! {

/// Some candidate is evidence of a resolved type: it declares doc types, names a
/// type (where names count), comes from a signature, or is initialized by a
/// literal, a closure or a table.
pub open spec fn candidates_resolved(cs: Seq<CandidateView>, names_count: bool) -> bool {
    exists|i: int|
        0 <= i < cs.len() && {
            let c = #[trigger] cs[i];
            ||| c.explicit_type_offsets.len() > 0
            ||| (names_count && c.named_type_names.len() > 0)
            ||| c.signature_offset is Some
            ||| spec_is_stable_initializer(c.value_expr_syntax_id)
        }
}

/// Some candidate has an initializer.
pub open spec fn candidates_partial(cs: Seq<CandidateView>) -> bool {
    exists|i: int| 0 <= i < cs.len() && (#[trigger] cs[i]).initializer_offset is Some
}

pub open spec fn spec_candidates_state(cs: Seq<CandidateView>, names_count: bool) -> SalsaSemanticResolveStateSummary {
    if candidates_resolved(cs, names_count) {
        SalsaSemanticResolveStateSummary::Resolved
    } else if candidates_partial(cs) {
        SalsaSemanticResolveStateSummary::Partial
    } else {
        SalsaSemanticResolveStateSummary::Unknown
    }
}

/// The shell that a list of type candidates gives: all their declared doc types,
/// and resolved, partial or unknown by the evidence they hold.
pub open spec fn spec_candidates_shell(
    cs: Seq<CandidateView>,
    names_count: bool,
    s: (SalsaSemanticResolveStateSummary, Seq<u32>),
) -> bool {
    shell_is(s, spec_candidates_state(cs, names_count), |x: u32| some_candidate_declares(cs, x))
}

fn build_shell_from_candidates(candidates: &Vec<SalsaTypeCandidateSummary>, names_count: bool) -> (r:
    SalsaSemanticValueShellSummary)
    ensures
        spec_candidates_shell(candidates_view(candidates@), names_count, r@),
{
    let ghost cs = candidates_view(candidates@);
    let mut offsets: Vec<u32> = Vec::new();
    insert_candidate_offsets(&mut offsets, candidates);
    let mut resolved = false;
    let mut partial = false;
    let mut i: usize = 0;
    while i < candidates.len()
        invariant
            cs == candidates_view(candidates@),
            i <= cs.len(),
            resolved == candidates_resolved(cs.take(i as int), names_count),
            partial == candidates_partial(cs.take(i as int)),
        decreases cs.len() - i,
    {
        let c = &candidates[i];
        let ghost next = cs.take(i + 1);
        assert(cs[i as int] == c@);
        let this_resolved = c.explicit_type_offsets.len() > 0 || (names_count && c.named_type_names.len() > 0)
            || c.signature_offset.is_some() || has_stable_initializer_evidence(c.value_expr_syntax_id);
        proof {
            assert(next[i as int] == c@);
            assert(c@.named_type_names.len() == c.named_type_names@.len());
            if candidates_resolved(next, names_count) && !this_resolved {
                let k = choose|k: int|
                    0 <= k < next.len() && {
                        let d = #[trigger] next[k];
                        ||| d.explicit_type_offsets.len() > 0
                        ||| (names_count && d.named_type_names.len() > 0)
                        ||| d.signature_offset is Some
                        ||| spec_is_stable_initializer(d.value_expr_syntax_id)
                    };
                assert(k != i);
                assert(cs.take(i as int)[k] == next[k]);
            }
            if candidates_resolved(cs.take(i as int), names_count) {
                let k = choose|k: int|
                    0 <= k < cs.take(i as int).len() && {
                        let d = #[trigger] cs.take(i as int)[k];
                        ||| d.explicit_type_offsets.len() > 0
                        ||| (names_count && d.named_type_names.len() > 0)
                        ||| d.signature_offset is Some
                        ||| spec_is_stable_initializer(d.value_expr_syntax_id)
                    };
                assert(next[k] == cs.take(i as int)[k]);
            }
            if candidates_partial(next) && c.initializer_offset.is_none() {
                let k = choose|k: int| 0 <= k < next.len() && (#[trigger] next[k]).initializer_offset is Some;
                assert(k != i);
                assert(cs.take(i as int)[k] == next[k]);
            }
            if candidates_partial(cs.take(i as int)) {
                let k = choose|k: int| 0 <= k < cs.take(i as int).len() && (#[trigger] cs.take(i as int)[k]).initializer_offset is Some;
                assert(next[k] == cs.take(i as int)[k]);
            }
        }
        resolved = resolved || this_resolved;
        partial = partial || c.initializer_offset.is_some();
        i = i + 1;
        assert(cs.take(i as int) == next);
    }
    assert(cs.take(i as int) =~= cs);
    proof {
        if offsets@.len() > 0 {
            assert(offsets@.contains(offsets@[0]));
            let x = offsets@[0];
            let k = choose|k: int| 0 <= k < cs.len() && (#[trigger] cs[k]).explicit_type_offsets.contains(x);
            assert(cs[k].explicit_type_offsets.len() > 0);
        }
    }
    build_semantic_value_shell_from_type_candidates(offsets, partial, resolved)
}

/// A shell of these doc types: resolved when there are any or when there is
/// evidence that resolves the value, else partial on partial evidence, else unknown.
pub fn build_semantic_value_shell_from_type_candidates(
    explicit_type_offsets: Vec<u32>,
    has_partial_evidence: bool,
    has_resolved_evidence: bool,
) -> (r: SalsaSemanticValueShellSummary)
    ensures
        r.candidate_type_offsets@ == explicit_type_offsets@,
        r.state == if explicit_type_offsets@.len() > 0 || has_resolved_evidence {
            SalsaSemanticResolveStateSummary::Resolved
        } else if has_partial_evidence {
            SalsaSemanticResolveStateSummary::Partial
        } else {
            SalsaSemanticResolveStateSummary::Unknown
        },
{
    let state = if explicit_type_offsets.len() > 0 || has_resolved_evidence {
        SalsaSemanticResolveStateSummary::Resolved
    } else if has_partial_evidence {
        SalsaSemanticResolveStateSummary::Partial
    } else {
        SalsaSemanticResolveStateSummary::Unknown
    };
    SalsaSemanticValueShellSummary { state, candidate_type_offsets: explicit_type_offsets }
}

/// The shell of a loop's source named by a variable: that of the variable's
/// candidates at the loop (named types do not count); unknown without them.
pub fn build_semantic_value_shell_from_for_range_name_type(name_type: Option<&SalsaProgramPointTypeInfoSummary>) -> (r:
    SalsaSemanticValueShellSummary)
    ensures
        match name_type {
            Some(t) => spec_candidates_shell(candidates_view(t.candidates@), false, r@),
            None => r@ == (SalsaSemanticResolveStateSummary::Unknown, Seq::<u32>::empty()),
        },
{
    match name_type {
        Some(t) => build_shell_from_candidates(&t.candidates, false),
        None => SalsaSemanticValueShellSummary {
            state: SalsaSemanticResolveStateSummary::Unknown,
            candidate_type_offsets: Vec::new(),
        },
    }
}

/// The shell of a loop's source that is a member: that of the member's
/// candidates at the loop (named types do not count); unknown without them.
pub fn build_semantic_value_shell_from_for_range_member_type(member_type: Option<&SalsaProgramPointMemberTypeInfoSummary>) -> (r:
    SalsaSemanticValueShellSummary)
    ensures
        match member_type {
            Some(t) => spec_candidates_shell(candidates_view(t.candidates@), false, r@),
            None => r@ == (SalsaSemanticResolveStateSummary::Unknown, Seq::<u32>::empty()),
        },
{
    match member_type {
        Some(t) => build_shell_from_candidates(&t.candidates, false),
        None => SalsaSemanticValueShellSummary {
            state: SalsaSemanticResolveStateSummary::Unknown,
            candidate_type_offsets: Vec::new(),
        },
    }
}

/// The shell of a member from its type information: that of its candidates, with
/// named types counting; unknown without type information.
pub fn build_semantic_value_shell_from_member_type(member_type: Option<&SalsaMemberTypeInfoSummary>) -> (r:
    SalsaSemanticValueShellSummary)
    ensures
        match member_type {
            Some(m) => spec_candidates_shell(candidates_view(m.candidates@), true, r@),
            None => r@ == (SalsaSemanticResolveStateSummary::Unknown, Seq::<u32>::empty()),
        },
{
    match member_type {
        Some(m) => build_shell_from_candidates(&m.candidates, true),
        None => SalsaSemanticValueShellSummary {
            state: SalsaSemanticResolveStateSummary::Unknown,
            candidate_type_offsets: Vec::new(),
        },
    }
}

/// The state that a declaration's type information gives: resolved by declared
/// or named types, a value signature or a stable initializer; partial with an
/// initializer or a signature.
pub open spec fn spec_decl_type_state(d: SalsaDeclTypeInfoSummary) -> SalsaSemanticResolveStateSummary {
    if d.explicit_type_offsets@.len() > 0 || d.named_type_names@.len() > 0 || d.value_signature_offset.is_some()
        || spec_is_stable_initializer(d.value_expr_syntax_id) {
        SalsaSemanticResolveStateSummary::Resolved
    } else if d.initializer_offset.is_some() || d.signature_offset.is_some() {
        SalsaSemanticResolveStateSummary::Partial
    } else {
        SalsaSemanticResolveStateSummary::Unknown
    }
}

pub open spec fn spec_decl_type_shell(d: Option<SalsaDeclTypeInfoSummary>, s: (SalsaSemanticResolveStateSummary, Seq<u32>)) -> bool {
    match d {
        Some(d) => shell_is(s, spec_decl_type_state(d), |x: u32| d.explicit_type_offsets@.contains(x)),
        None => s == (SalsaSemanticResolveStateSummary::Unknown, Seq::<u32>::empty()),
    }
}

pub(crate) fn build_semantic_value_shell_from_decl_type(decl_type: Option<&SalsaDeclTypeInfoSummary>) -> (r:
    SalsaSemanticValueShellSummary)
    ensures
        spec_decl_type_shell(
            match decl_type {
                Some(d) => Some(*d),
                None => None,
            },
            r@,
        ),
{
    match decl_type {
        None => SalsaSemanticValueShellSummary {
            state: SalsaSemanticResolveStateSummary::Unknown,
            candidate_type_offsets: Vec::new(),
        },
        Some(d) => {
            let mut offsets: Vec<u32> = Vec::new();
            insert_all_sorted_unique(&mut offsets, &d.explicit_type_offsets);
            let resolved = d.explicit_type_offsets.len() > 0 || d.named_type_names.len() > 0
                || d.value_signature_offset.is_some() || has_stable_initializer_evidence(d.value_expr_syntax_id);
            let partial = d.initializer_offset.is_some() || d.signature_offset.is_some();
            let state = if offsets.len() > 0 || resolved {
                SalsaSemanticResolveStateSummary::Resolved
            } else if partial {
                SalsaSemanticResolveStateSummary::Partial
            } else {
                SalsaSemanticResolveStateSummary::Unknown
            };
            proof {
                if offsets@.len() > 0 {
                    assert(offsets@.contains(offsets@[0]));
                    assert(d.explicit_type_offsets@.contains(offsets@[0]));
                }
            }
            SalsaSemanticValueShellSummary { state, candidate_type_offsets: offsets }
        },
    }
}

/// The shell of the declaration `decl_id` from its type information.
pub fn build_decl_value_shell(decl_types: &SalsaDeclTypeQueryIndex, decl_id: u32) -> (r: SalsaSemanticValueShellSummary)
    ensures
        spec_decl_type_shell(spec_find_decl_type_info(*decl_types, decl_id), r@),
{
    build_semantic_value_shell_from_decl_type(find_decl_type_info(decl_types, decl_id))
}

/// The shell of the member with target handle `member_target` from its type
/// information.
pub fn build_member_value_shell(member_types: &SalsaMemberTypeQueryIndex, member_target: u32) -> (r:
    SalsaSemanticValueShellSummary)
    ensures
        match spec_find_member_type_info(*member_types, member_target) {
            Some(m) => spec_candidates_shell(candidates_view(m.candidates@), true, r@),
            None => r@ == (SalsaSemanticResolveStateSummary::Unknown, Seq::<u32>::empty()),
        },
{
    build_semantic_value_shell_from_member_type(find_member_type_info(member_types, member_target))
}

} // verus!

verus! {

impl Keyed for SalsaSignatureReturnQuerySummary {
    open spec fn key(&self) -> u32 { self.signature_offset }
    fn get_key(&self) -> (k: u32) { self.signature_offset }
}

/// What the signature at `signature_offset` returns: the first entry for it.
pub fn find_signature_return_query_at(index: &SalsaSignatureReturnQueryIndex, signature_offset: u32) -> (r: Option<
    &SalsaSignatureReturnQuerySummary,
>)
    ensures
        match r {
            Some(s) => first_with_key(index.signatures@, signature_offset) == Some(*s),
            None => first_with_key(index.signatures@, signature_offset).is_none(),
        },
{
    proof { lemma_first_index_with_key(index.signatures@, signature_offset); }
    match find_first_index(&index.signatures, signature_offset) {
        Some(i) => Some(&index.signatures[i]),
        None => None,
    }
}

/// A shell described by its state and the candidates it holds.
pub type ShellSpec = (SalsaSemanticResolveStateSummary, spec_fn(u32) -> bool);

/// Each shell of `shells` is described by the entry of `specs` at its position.
pub open spec fn shells_are(shells: Seq<(SalsaSemanticResolveStateSummary, Seq<u32>)>, specs: Seq<ShellSpec>) -> bool {
    &&& shells.len() == specs.len()
    &&& forall|i: int| 0 <= i < shells.len() ==> shell_is(#[trigger] shells[i], specs[i].0, specs[i].1)
}

/// The shell of result `result_index` of a signature, as a description.
pub open spec fn spec_slot_shell_spec(summary: SalsaSignatureReturnQuerySummary, result_index: usize) -> ShellSpec {
    if result_index < summary.values@.len() {
        let v = summary.values@[result_index as int]@;
        (spec_return_value_state(v), |x: u32| spec_value_candidate(v, result_index, x))
    } else {
        (spec_semantic_from_signature_return(summary.state), |x: u32| false)
    }
}

/// The signatures a call may go to: its resolved one first, then its candidates.
pub open spec fn spec_call_offsets(call: crate::signature_model::CallExplainView) -> Seq<u32> {
    match call.resolved_signature_offset {
        Some(o) => seq![o] + call.candidate_signature_offsets,
        None => call.candidate_signature_offsets,
    }
}

/// The elements of `s`, each at its first occurrence.
pub open spec fn first_occurrences(s: Seq<u32>) -> Seq<u32>
    decreases s.len(),
{
    if s.len() == 0 {
        s
    } else {
        let r = first_occurrences(s.drop_last());
        if r.contains(s.last()) { r } else { r.push(s.last()) }
    }
}

/// The slot shell of the signature at `p`, where it has an entry.
pub open spec fn slot_shell_of(index: SalsaSignatureReturnQueryIndex, result_index: usize, p: u32) -> Option<ShellSpec> {
    match first_with_key(index.signatures@, p) {
        Some(summary) => Some(spec_slot_shell_spec(summary, result_index)),
        None => None,
    }
}

/// The slot shells of the signatures at `s`, skipping those without an entry.
pub open spec fn slot_shells_of(index: SalsaSignatureReturnQueryIndex, result_index: usize, s: Seq<u32>) -> Seq<
    ShellSpec,
> {
    s.filter_map(|p: u32| slot_shell_of(index, result_index, p))
}

proof fn lemma_slot_shells_push(index: SalsaSignatureReturnQueryIndex, result_index: usize, s: Seq<u32>, o: u32)
    ensures
        slot_shells_of(index, result_index, s.push(o)) == match slot_shell_of(index, result_index, o) {
            Some(x) => slot_shells_of(index, result_index, s) + seq![x],
            None => slot_shells_of(index, result_index, s),
        },
{
    assert(s.push(o).drop_last() =~= s);
    assert(s.push(o).last() == o);
}

/// The shells of result `result_index` of the signatures a call may go to, each
/// signature once, in order, skipping those without an entry; then, where the
/// call's rows give doc types at that position, a resolved shell of those.
pub open spec fn spec_call_slot_shells(
    index: SalsaSignatureReturnQueryIndex,
    call: crate::signature_model::CallExplainView,
    result_index: usize,
) -> Seq<ShellSpec> {
    let found = slot_shells_of(index, result_index, first_occurrences(spec_call_offsets(call)));
    if exists|x: u32| rows_give(call.returns, result_index, x) {
        found.push(
            (SalsaSemanticResolveStateSummary::Resolved, |x: u32| rows_give(call.returns, result_index, x)),
        )
    } else {
        found
    }
}

/// The shell of result `result_index` of a call: the shells of its signatures and
/// rows merged (the strongest state, all candidates), or, without any, partial if
/// it has signatures to go to and unknown if not.
pub open spec fn spec_call_slot_shell(
    index: SalsaSignatureReturnQueryIndex,
    call: crate::signature_model::CallExplainView,
    result_index: usize,
    s: (SalsaSemanticResolveStateSummary, Seq<u32>),
) -> bool {
    let specs = spec_call_slot_shells(index, call, result_index);
    if specs.len() > 0 {
        shell_is(
            s,
            spec_strongest_state(specs.map_values(|p: ShellSpec| p.0)),
            |x: u32| exists|i: int| 0 <= i < specs.len() && (specs[i].1)(x),
        )
    } else {
        shell_is(
            s,
            if call.resolved_signature_offset.is_some() || call.candidate_signature_offsets.len() > 0 {
                SalsaSemanticResolveStateSummary::Partial
            } else {
                SalsaSemanticResolveStateSummary::Unknown
            },
            |x: u32| false,
        )
    }
}

fn contains_u32(v: &Vec<u32>, x: u32) -> (r: bool)
    ensures
        r == v@.contains(x),
{
    let mut i: usize = 0;
    while i < v.len()
        invariant
            i <= v@.len(),
            forall|j: int| 0 <= j < i ==> v@[j] != x,
        decreases v@.len() - i,
    {
        if v[i] == x {
            return true;
        }
        i = i + 1;
    }
    false
}

/// Adds the slot shell of the signature at `o` to `shells`, unless `o` was seen.
fn push_signature_slot_shell(
    index: &SalsaSignatureReturnQueryIndex,
    o: u32,
    result_index: usize,
    seen: &mut Vec<u32>,
    shells: &mut Vec<SalsaSemanticValueShellSummary>,
    Ghost(offs): Ghost<Seq<u32>>,
)
    requires
        old(seen)@ == first_occurrences(offs),
        shells_are(shell_views(old(shells)@), slot_shells_of(*index, result_index, first_occurrences(offs))),
    ensures
        final(seen)@ == first_occurrences(offs.push(o)),
        shells_are(shell_views(final(shells)@), slot_shells_of(*index, result_index, first_occurrences(offs.push(o)))),
{
    assert(offs.push(o).drop_last() =~= offs);
    assert(offs.push(o).last() == o);
    if contains_u32(seen, o) {
        return;
    }
    let ghost old_seen = seen@;
    let ghost old_shells = shells@;
    seen.push(o);
    assert(seen@.drop_last() =~= old_seen);
    assert(seen@.last() == o);
    match find_signature_return_query_at(index, o) {
        Some(summary) => {
            shells.push(build_semantic_value_shell_from_signature_return_slot(summary, result_index));
            proof {
                lemma_slot_shells_push(*index, result_index, old_seen, o);
                let specs = slot_shells_of(*index, result_index, seen@);
                assert(specs == slot_shells_of(*index, result_index, old_seen) + seq![spec_slot_shell_spec(*summary, result_index)]);
                assert(shell_views(shells@) =~= shell_views(old_shells).push(shells@[shells@.len() - 1]@));
                assert forall|i: int| 0 <= i < shell_views(shells@).len() implies shell_is(
                    #[trigger] shell_views(shells@)[i],
                    specs[i].0,
                    specs[i].1,
                ) by {
                    if i < old_shells.len() {
                        assert(shell_views(shells@)[i] == shell_views(old_shells)[i]);
                        assert(specs[i] == slot_shells_of(*index, result_index, old_seen)[i]);
                    } else {
                        assert(specs[i] == spec_slot_shell_spec(*summary, result_index));
                    }
                }
            }
        },
        None => {
            proof {
                lemma_slot_shells_push(*index, result_index, old_seen, o);
            }
        },
    }
}

} // verus!

verus! {

/// The doc types that a call's rows give at position `result_index`.
fn call_row_type_offsets(call: &SalsaCallExplainSummary, result_index: usize) -> (r: Vec<u32>)
    ensures
        strictly_sorted(r@),
        forall|x: u32| #[trigger] r@.contains(x) <==> rows_give(call@.returns, result_index, x),
{
    let ghost rows = return_rows_view(call.returns@);
    let mut set: Vec<u32> = Vec::new();
    let mut k: usize = 0;
    while k < call.returns.len()
        invariant
            rows == return_rows_view(call.returns@),
            k <= call.returns@.len(),
            strictly_sorted(set@),
            forall|x: u32| #[trigger] set@.contains(x) <==> rows_give(rows.take(k as int), result_index, x),
        decreases call.returns@.len() - k,
    {
        let row = &call.returns[k];
        let ghost before = set@;
        let ghost next = rows.take(k + 1);
        assert(rows[k as int] == row@);
        if result_index < row.items.len() {
            if let SalsaDocTypeRef::Node(type_offset) = row.items[result_index].doc_type.type_ref {
                insert_sorted_unique(&mut set, type_offset);
            }
        }
        proof {
            assert forall|x: u32| #[trigger] set@.contains(x) <==> rows_give(next, result_index, x) by {
                assert(before.contains(x) <==> rows_give(rows.take(k as int), result_index, x));
                if rows_give(next, result_index, x) {
                    let j = choose|j: int| 0 <= j < next.len() && row_gives(#[trigger] next[j], result_index, x);
                    if j < k {
                        assert(rows.take(k as int)[j] == next[j]);
                    }
                }
                if rows_give(rows.take(k as int), result_index, x) {
                    let j = choose|j: int|
                        0 <= j < rows.take(k as int).len() && row_gives(#[trigger] rows.take(k as int)[j], result_index, x);
                    assert(next[j] == rows.take(k as int)[j]);
                }
                if row_gives(row@, result_index, x) {
                    assert(next[k as int] == row@);
                }
            }
        }
        k = k + 1;
        assert(rows.take(k as int) == next);
    }
    assert(rows.take(k as int) =~= rows);
    set
}

/// Merging shells described by `specs` gives the strongest of their states and
/// all their candidates.
pub proof fn lemma_merge_described(
    shells: Seq<SalsaSemanticValueShellSummary>,
    specs: Seq<ShellSpec>,
    r: (SalsaSemanticResolveStateSummary, Seq<u32>),
)
    requires
        shells_are(shell_views(shells), specs),
        r.0 == spec_strongest_state(shell_states(shell_views(shells))),
        crate::semantic_solver::spec_is_candidate_union(shell_views(shells), r.1),
    ensures
        shell_is(
            r,
            spec_strongest_state(specs.map_values(|p: ShellSpec| p.0)),
            |x: u32| exists|i: int| 0 <= i < specs.len() && (specs[i].1)(x),
        ),
{
    let views = shell_views(shells);
    assert(shell_states(views) =~= specs.map_values(|p: ShellSpec| p.0)) by {
        assert forall|i: int| 0 <= i < views.len() implies shell_states(views)[i] == specs.map_values(
            |p: ShellSpec| p.0,
        )[i] by {
            assert(shell_is(views[i], specs[i].0, specs[i].1));
        }
    }
    assert forall|x: u32| #[trigger] r.1.contains(x) <==> (exists|i: int| 0 <= i < specs.len() && (specs[i].1)(x)) by {
        if r.1.contains(x) {
            let i = choose|i: int| 0 <= i < views.len() && views[i].1.contains(x);
            assert(shell_is(views[i], specs[i].0, specs[i].1));
        }
        if exists|i: int| 0 <= i < specs.len() && (specs[i].1)(x) {
            let i = choose|i: int| 0 <= i < specs.len() && (specs[i].1)(x);
            assert(shell_is(views[i], specs[i].0, specs[i].1));
            assert(views[i].1.contains(x));
        }
    }
}

/// The shell of result `result_index` of a call.
pub(crate) fn build_semantic_value_shell_from_call_explain_slot(
    index: &SalsaSignatureReturnQueryIndex,
    call: &SalsaCallExplainSummary,
    result_index: usize,
) -> (r: SalsaSemanticValueShellSummary)
    ensures
        spec_call_slot_shell(*index, call@, result_index, r@),
{
    let mut shells: Vec<SalsaSemanticValueShellSummary> = Vec::new();
    let mut seen: Vec<u32> = Vec::new();
    let ghost mut offs: Seq<u32> = Seq::empty();
    proof {
        assert(seen@ =~= first_occurrences(offs));
        assert(shell_views(shells@) =~= Seq::empty());
        assert(slot_shells_of(*index, result_index, first_occurrences(offs)) =~= Seq::empty());
    }
    if let Some(o) = call.resolved_signature_offset {
        push_signature_slot_shell(index, o, result_index, &mut seen, &mut shells, Ghost(offs));
        proof { offs = offs.push(o); }
    }
    let mut k: usize = 0;
    while k < call.candidate_signature_offsets.len()
        invariant
            k <= call.candidate_signature_offsets@.len(),
            offs == match call.resolved_signature_offset {
                Some(o) => seq![o] + call.candidate_signature_offsets@.take(k as int),
                None => call.candidate_signature_offsets@.take(k as int),
            },
            seen@ == first_occurrences(offs),
            shells_are(shell_views(shells@), slot_shells_of(*index, result_index, first_occurrences(offs))),
        decreases call.candidate_signature_offsets@.len() - k,
    {
        let o = call.candidate_signature_offsets[k];
        push_signature_slot_shell(index, o, result_index, &mut seen, &mut shells, Ghost(offs));
        proof {
            offs = offs.push(o);
            assert(call.candidate_signature_offsets@.take(k + 1) =~= call.candidate_signature_offsets@.take(
                k as int,
            ).push(o));
            match call.resolved_signature_offset {
                Some(r0) => {
                    assert(seq![r0] + call.candidate_signature_offsets@.take(k + 1) =~= (seq![r0]
                        + call.candidate_signature_offsets@.take(k as int)).push(o));
                },
                None => {},
            }
        }
        k = k + 1;
    }
    assert(offs =~= spec_call_offsets(call@)) by {
        assert(call.candidate_signature_offsets@.take(k as int) =~= call.candidate_signature_offsets@);
    }
    let row_offsets = call_row_type_offsets(call, result_index);
    let ghost found_specs = slot_shells_of(*index, result_index, first_occurrences(offs));
    let ghost specs = spec_call_slot_shells(*index, call@, result_index);
    if row_offsets.len() > 0 {
        let ghost before = shells@;
        proof {
            assert(row_offsets@.contains(row_offsets@[0]));
            assert(rows_give(call@.returns, result_index, row_offsets@[0]));
        }
        shells.push(SalsaSemanticValueShellSummary {
            state: SalsaSemanticResolveStateSummary::Resolved,
            candidate_type_offsets: row_offsets,
        });
        proof {
            assert(specs == found_specs.push(
                (SalsaSemanticResolveStateSummary::Resolved, |x: u32| rows_give(call@.returns, result_index, x)),
            ));
            assert(shell_views(shells@) =~= shell_views(before).push(shells@[shells@.len() - 1]@));
            assert forall|i: int| 0 <= i < shell_views(shells@).len() implies shell_is(
                #[trigger] shell_views(shells@)[i],
                specs[i].0,
                specs[i].1,
            ) by {
                if i < before.len() {
                    assert(shell_views(shells@)[i] == shell_views(before)[i]);
                    assert(specs[i] == found_specs[i]);
                }
            }
        }
    } else {
        proof {
            assert(!exists|x: u32| rows_give(call@.returns, result_index, x)) by {
                if exists|x: u32| rows_give(call@.returns, result_index, x) {
                    let x = choose|x: u32| rows_give(call@.returns, result_index, x);
                    assert(row_offsets@.contains(x));
                }
            }
            assert(specs == found_specs);
        }
    }
    if shells.len() > 0 {
        let r = merge_solver_value_shells(&shells);
        proof { lemma_merge_described(shells@, specs, r@); }
        r
    } else {
        let state = if call.resolved_signature_offset.is_some() || call.candidate_signature_offsets.len() > 0 {
            SalsaSemanticResolveStateSummary::Partial
        } else {
            SalsaSemanticResolveStateSummary::Unknown
        };
        SalsaSemanticValueShellSummary { state, candidate_type_offsets: Vec::new() }
    }
}

} // verus!

verus! {

/// The shell that the source of a `for ... in` loop gives: that of the candidates
/// of the name or member it iterates (named types not counting), that of the
/// first result of the call it iterates (with signature returns to look in; else
/// what the call alone says, without candidates), or unknown.
pub open spec fn spec_for_range_source_shell(
    signature_returns: Option<SalsaSignatureReturnQueryIndex>,
    source: ForRangeSourceView,
    s: (SalsaSemanticResolveStateSummary, Seq<u32>),
) -> bool {
    match source.kind {
        SalsaForRangeIterSourceKindSummary::Name => match source.name_type {
            Some(cs) => spec_candidates_shell(cs, false, s),
            None => s == (SalsaSemanticResolveStateSummary::Unknown, Seq::<u32>::empty()),
        },
        SalsaForRangeIterSourceKindSummary::Member => match source.member_type {
            Some(cs) => spec_candidates_shell(cs, false, s),
            None => s == (SalsaSemanticResolveStateSummary::Unknown, Seq::<u32>::empty()),
        },
        SalsaForRangeIterSourceKindSummary::Call => match source.call {
            Some(call) => match signature_returns {
                Some(index) => spec_call_slot_shell(index, call, 0, s),
                None => s == (spec_call_state(call), Seq::<u32>::empty()),
            },
            None => s == (SalsaSemanticResolveStateSummary::Unknown, Seq::<u32>::empty()),
        },
        SalsaForRangeIterSourceKindSummary::Other => s == (
            SalsaSemanticResolveStateSummary::Unknown,
            Seq::<u32>::empty(),
        ),
    }
}

fn build_shell_from_for_range_source(
    source: &SalsaForRangeIterSourceSummary,
    signature_returns: Option<&SalsaSignatureReturnQueryIndex>,
) -> (r: SalsaSemanticValueShellSummary)
    ensures
        spec_for_range_source_shell(
            match signature_returns {
                Some(i) => Some(*i),
                None => None,
            },
            source@,
            r@,
        ),
{
    match source.kind {
        SalsaForRangeIterSourceKindSummary::Name => build_semantic_value_shell_from_for_range_name_type(
            source.name_type.as_ref(),
        ),
        SalsaForRangeIterSourceKindSummary::Member => build_semantic_value_shell_from_for_range_member_type(
            source.member_type.as_ref(),
        ),
        SalsaForRangeIterSourceKindSummary::Call => match &source.call {
            Some(call) => match signature_returns {
                Some(index) => build_semantic_value_shell_from_call_explain_slot(index, call, 0),
                None => SalsaSemanticValueShellSummary { state: call_state(call), candidate_type_offsets: Vec::new() },
            },
            None => SalsaSemanticValueShellSummary {
                state: SalsaSemanticResolveStateSummary::Unknown,
                candidate_type_offsets: Vec::new(),
            },
        },
        SalsaForRangeIterSourceKindSummary::Other => SalsaSemanticValueShellSummary {
            state: SalsaSemanticResolveStateSummary::Unknown,
            candidate_type_offsets: Vec::new(),
        },
    }
}

/// The shell of a `for ... in` loop: without a source, its own state and no
/// candidates; with one, the candidates of the source's shell and the state of
/// that shell joined with the loop's own.
pub open spec fn spec_for_range_iter_shell(
    summary: SalsaForRangeIterQuerySummary,
    signature_returns: Option<SalsaSignatureReturnQueryIndex>,
    r: (SalsaSemanticResolveStateSummary, Seq<u32>),
) -> bool {
    let own = spec_semantic_from_for_range_iter(summary.state);
    match summary.source {
        None => r == (own, Seq::<u32>::empty()),
        Some(source) => exists|s: (SalsaSemanticResolveStateSummary, Seq<u32>)|
            spec_for_range_source_shell(signature_returns, source@, s) && r == (spec_join_states(seq![s.0, own]), s.1),
    }
}

/// The shell of a `for ... in` loop, reading call results in `signature_returns`
/// where it is given.
pub fn build_semantic_value_shell_from_for_range_iter_source(
    summary: &SalsaForRangeIterQuerySummary,
    signature_returns: Option<&SalsaSignatureReturnQueryIndex>,
) -> (r: SalsaSemanticValueShellSummary)
    ensures
        spec_for_range_iter_shell(
            *summary,
            match signature_returns {
                Some(i) => Some(*i),
                None => None,
            },
            r@,
        ),
{
    let state = semantic_resolve_state_from_for_range_iter(summary.state);
    match &summary.source {
        None => SalsaSemanticValueShellSummary { state, candidate_type_offsets: Vec::new() },
        Some(source) => {
            let shell = build_shell_from_for_range_source(source, signature_returns);
            let ghost inner = shell@;
            let mut states: Vec<SalsaSemanticResolveStateSummary> = Vec::new();
            states.push(shell.state);
            states.push(state);
            assert(states@ =~= seq![inner.0, state]);
            let joined = join_semantic_resolve_states(&states);
            let r = SalsaSemanticValueShellSummary { state: joined, candidate_type_offsets: shell.candidate_type_offsets };
            assert(r@ == (spec_join_states(seq![inner.0, state]), inner.1));
            r
        },
    }
}

/// The shell of a `for ... in` loop from what the loop alone says.
pub fn build_semantic_value_shell_from_for_range_iter(summary: &SalsaForRangeIterQuerySummary) -> (r:
    SalsaSemanticValueShellSummary)
    ensures
        spec_for_range_iter_shell(*summary, None, r@),
{
    build_semantic_value_shell_from_for_range_iter_source(summary, None)
}

/// The doc types of slot `slot_index` of a `for ... in` loop: those of its first
/// variable in that slot, or none.
pub fn for_range_iter_slot_candidate_type_offsets(summary: &SalsaForRangeIterQuerySummary, slot_index: usize) -> (r:
    Vec<u32>)
    ensures
        r@ == match first_slot_var(summary.iter_vars@, slot_index) {
            Some(v) => v.type_offsets@,
            None => Seq::<u32>::empty(),
        },
{
    let mut i: usize = 0;
    assert(summary.iter_vars@.skip(0) =~= summary.iter_vars@);
    while i < summary.iter_vars.len()
        invariant
            i <= summary.iter_vars@.len(),
            first_slot_var(summary.iter_vars@, slot_index) == first_slot_var(summary.iter_vars@.skip(i as int), slot_index),
        decreases summary.iter_vars@.len() - i,
    {
        assert(summary.iter_vars@.skip(i as int).drop_first() =~= summary.iter_vars@.skip(i + 1));
        if summary.iter_vars[i].slot_index == slot_index {
            return crate::signature_model::clone_u32_vec(&summary.iter_vars[i].type_offsets);
        }
        i = i + 1;
    }
    Vec::new()
}

/// The first variable in slot `slot_index`.
pub open spec fn first_slot_var(
    vars: Seq<crate::signature_model::SalsaForRangeIterVarSummary>,
    slot_index: usize,
) -> Option<crate::signature_model::SalsaForRangeIterVarSummary>
    decreases vars.len(),
{
    if vars.len() == 0 {
        None
    } else if vars[0].slot_index == slot_index {
        Some(vars[0])
    } else {
        first_slot_var(vars.drop_first(), slot_index)
    }
}

} // verus!
