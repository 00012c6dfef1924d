//! What a signature returns: each returned expression classified by its kind,
//! with the doc types declared for its slot and what is known of the name,
//! member or call it is; and how well the signature's returns are resolved.
use vstd::prelude::*;

use crate::offsets::{insert_sorted_unique, strictly_sorted};
use crate::semantic_solver::{SalsaSemanticResolveStateSummary, SalsaSignatureReturnResolveStateSummary};
use crate::signature_model::{
    ReturnValueView, SalsaProgramPointMemberTypeInfoSummary, SalsaProgramPointTypeInfoSummary, SalsaDocTypeRef,
    SalsaSignatureExplainIndex, SalsaSignatureReturnExplainSummary, SalsaSignatureReturnExprKindSummary,
    SalsaSignatureReturnQuerySummary, SalsaSignatureReturnValueSummary, clone_return_rows, find_call_explain_at,
    opt_candidates_view, opt_member_candidates_view, return_rows_view, return_values_view, spec_find_call_explain_at,
};
use crate::solver_shells::{row_gives, rows_give, signature_return_value_is_resolved, spec_return_value_state};

verus! {

/// The doc types that the `@return` rows declare at slot `return_slot_index`,
/// each once, in increasing order.
pub fn collect_signature_return_doc_slot_offsets(
    doc_returns: &Vec<SalsaSignatureReturnExplainSummary>,
    return_slot_index: usize,
) -> (r: Vec<u32>)
    ensures
        strictly_sorted(r@),
        forall|x: u32| #[trigger] r@.contains(x) <==> rows_give(return_rows_view(doc_returns@), return_slot_index, x),
{
    let ghost rows = return_rows_view(doc_returns@);
    let mut out: Vec<u32> = Vec::new();
    let mut k: usize = 0;
    while k < doc_returns.len()
        invariant
            rows == return_rows_view(doc_returns@),
            k <= doc_returns@.len(),
            strictly_sorted(out@),
            forall|x: u32| #[trigger] out@.contains(x) <==> rows_give(rows.take(k as int), return_slot_index, x),
        decreases doc_returns@.len() - k,
    {
        let row = &doc_returns[k];
        let ghost before = out@;
        let ghost next = rows.take(k + 1);
        assert(rows[k as int] == row@);
        if return_slot_index < row.items.len() {
            if let SalsaDocTypeRef::Node(type_offset) = row.items[return_slot_index].doc_type.type_ref {
                insert_sorted_unique(&mut out, type_offset);
            }
        }
        proof {
            assert forall|x: u32| #[trigger] out@.contains(x) <==> rows_give(next, return_slot_index, x) by {
                if rows_give(next, return_slot_index, x) {
                    let j = choose|j: int| 0 <= j < next.len() && row_gives(#[trigger] next[j], return_slot_index, x);
                    if j < k {
                        assert(rows.take(k as int)[j] == next[j]);
                    }
                }
                if rows_give(rows.take(k as int), return_slot_index, x) {
                    let j = choose|j: int|
                        0 <= j < rows.take(k as int).len() && row_gives(
                            #[trigger] rows.take(k as int)[j],
                            return_slot_index,
                            x,
                        );
                    assert(next[j] == rows.take(k as int)[j]);
                }
                if row_gives(row@, return_slot_index, x) {
                    assert(next[k as int] == row@);
                }
            }
        }
        k = k + 1;
        assert(rows.take(k as int) == next);
    }
    assert(rows.take(k as int) =~= rows);
    out
}

/// The kind of a returned expression: `Other` where it could not be found.
pub open spec fn return_kind(expr_kind: Option<SalsaSignatureReturnExprKindSummary>) -> SalsaSignatureReturnExprKindSummary {
    match expr_kind {
        Some(k) => k,
        None => SalsaSignatureReturnExprKindSummary::Other,
    }
}

/// A value returned at `expr_offset`, whose expression is of kind `expr_kind`
/// (`None` where no expression starts there): its kind, the doc types declared
/// for its slot, and only for a name its name type, only for a member its member
/// type, only for a call the explanation of the call at that offset.
pub fn build_signature_return_value(
    expr_offset: u32,
    return_slot_index: usize,
    expr_kind: Option<SalsaSignatureReturnExprKindSummary>,
    doc_returns: &Vec<SalsaSignatureReturnExplainSummary>,
    name_type: Option<SalsaProgramPointTypeInfoSummary>,
    member_type: Option<SalsaProgramPointMemberTypeInfoSummary>,
    signature_explain_index: &SalsaSignatureExplainIndex,
) -> (r: SalsaSignatureReturnValueSummary)
    ensures
        r.expr_offset == expr_offset,
        r.kind == return_kind(expr_kind),
        strictly_sorted(r.doc_return_type_offsets@),
        forall|x: u32| #[trigger] r.doc_return_type_offsets@.contains(x) <==> rows_give(
            return_rows_view(doc_returns@),
            return_slot_index,
            x,
        ),
        r@.name_type == if r.kind == SalsaSignatureReturnExprKindSummary::Name {
            opt_candidates_view(name_type)
        } else {
            None
        },
        r@.member_type == if r.kind == SalsaSignatureReturnExprKindSummary::Member {
            opt_member_candidates_view(member_type)
        } else {
            None
        },
        r@.call == if r.kind == SalsaSignatureReturnExprKindSummary::Call {
            spec_find_call_explain_at(*signature_explain_index, expr_offset)
        } else {
            None
        },
{
    let doc_return_type_offsets = collect_signature_return_doc_slot_offsets(doc_returns, return_slot_index);
    let kind = match expr_kind {
        Some(k) => k,
        None => SalsaSignatureReturnExprKindSummary::Other,
    };
    match kind {
        SalsaSignatureReturnExprKindSummary::Name => SalsaSignatureReturnValueSummary {
            expr_offset,
            kind,
            doc_return_type_offsets,
            name_type,
            member_type: None,
            call: None,
        },
        SalsaSignatureReturnExprKindSummary::Member => SalsaSignatureReturnValueSummary {
            expr_offset,
            kind,
            doc_return_type_offsets,
            name_type: None,
            member_type,
            call: None,
        },
        SalsaSignatureReturnExprKindSummary::Call => SalsaSignatureReturnValueSummary {
            expr_offset,
            kind,
            doc_return_type_offsets,
            name_type: None,
            member_type: None,
            call: find_call_explain_at(signature_explain_index, expr_offset),
        },
        _ => SalsaSignatureReturnValueSummary {
            expr_offset,
            kind,
            doc_return_type_offsets,
            name_type: None,
            member_type: None,
            call: None,
        },
    }
}

/// A returned value is a call that may call the signature at `signature_offset`.
pub open spec fn value_calls_signature(v: ReturnValueView, signature_offset: u32) -> bool {
    match v.call {
        Some(call) => call.resolved_signature_offset == Some(signature_offset)
            || call.candidate_signature_offsets.contains(signature_offset),
        None => false,
    }
}

/// How well a signature's returns are resolved: a recursive dependency when a
/// returned value may call the signature itself, else partial when a returned
/// value is not resolved, else resolved.
pub open spec fn spec_signature_return_state(values: Seq<ReturnValueView>, signature_offset: u32) -> SalsaSignatureReturnResolveStateSummary {
    if exists|i: int| 0 <= i < values.len() && value_calls_signature(#[trigger] values[i], signature_offset) {
        SalsaSignatureReturnResolveStateSummary::RecursiveDependency
    } else if exists|i: int|
        0 <= i < values.len() && spec_return_value_state(#[trigger] values[i]) != SalsaSemanticResolveStateSummary::Resolved {
        SalsaSignatureReturnResolveStateSummary::Partial
    } else {
        SalsaSignatureReturnResolveStateSummary::Resolved
    }
}

fn calls_signature(value: &SalsaSignatureReturnValueSummary, signature_offset: u32) -> (r: bool)
    ensures
        r == value_calls_signature(value@, signature_offset),
{
    match &value.call {
        Some(call) => {
            if call.resolved_signature_offset == Some(signature_offset) {
                return true;
            }
            let mut k: usize = 0;
            while k < call.candidate_signature_offsets.len()
                invariant
                    k <= call.candidate_signature_offsets@.len(),
                    value@.call == Some(call@),
                    call@.resolved_signature_offset != Some(signature_offset),
                    forall|t: int| 0 <= t < k ==> call.candidate_signature_offsets@[t] != signature_offset,
                decreases call.candidate_signature_offsets@.len() - k,
            {
                if call.candidate_signature_offsets[k] == signature_offset {
                    assert(call@.candidate_signature_offsets[k as int] == signature_offset);
                    return true;
                }
                k = k + 1;
            }
            assert(!call@.candidate_signature_offsets.contains(signature_offset));
            false
        },
        None => false,
    }
}

/// What the signature at `signature_offset` returns: its `@return` rows, the
/// values it returns (one per returned expression, in order), and how well they
/// are resolved.
pub fn build_signature_return_query(
    signature_offset: u32,
    doc_returns: &Vec<SalsaSignatureReturnExplainSummary>,
    values: Vec<SalsaSignatureReturnValueSummary>,
) -> (r: SalsaSignatureReturnQuerySummary)
    ensures
        r.signature_offset == signature_offset,
        return_rows_view(r.doc_returns@) == return_rows_view(doc_returns@),
        return_values_view(r.values@) == return_values_view(values@),
        r.state == spec_signature_return_state(return_values_view(values@), signature_offset),
{
    let ghost vs = return_values_view(values@);
    let mut recursive = false;
    let mut partial = false;
    let mut i: usize = 0;
    while i < values.len()
        invariant
            i <= values@.len(),
            vs == return_values_view(values@),
            recursive == exists|t: int| 0 <= t < i && value_calls_signature(#[trigger] vs[t], signature_offset),
            partial == exists|t: int|
                0 <= t < i && spec_return_value_state(#[trigger] vs[t]) != SalsaSemanticResolveStateSummary::Resolved,
        decreases values@.len() - i,
    {
        assert(vs[i as int] == values@[i as int]@);
        if calls_signature(&values[i], signature_offset) {
            recursive = true;
        }
        if !signature_return_value_is_resolved(&values[i]) {
            partial = true;
        }
        i = i + 1;
    }
    let state = if recursive {
        SalsaSignatureReturnResolveStateSummary::RecursiveDependency
    } else if partial {
        SalsaSignatureReturnResolveStateSummary::Partial
    } else {
        SalsaSignatureReturnResolveStateSummary::Resolved
    };
    SalsaSignatureReturnQuerySummary { signature_offset, state, doc_returns: clone_return_rows(doc_returns), values }
}

} // verus!
