//! Type candidates: the sources of type information for one value, built from
//! a declaration's type information, a property or a global function, and kept
//! once each.
use vstd::prelude::*;

use crate::doc_tag::clone_strings;
use crate::name_order::names_view;
use crate::property::SalsaPropertySummary;
use crate::signature_model::{CandidateView, SalsaSignatureIndexSummary, candidates_view, clone_candidate, clone_u32_vec};
use crate::type_index::{find_signature_initializer_offset, spec_signature_initializer};
use crate::type_info::{
    SalsaDeclTypeInfoSummary, SalsaSyntaxIdSummary, SalsaTypeCandidateOriginSummary, SalsaTypeCandidateSummary,
};

verus! {

/// The candidate that a declaration's type information gives: its doc types,
/// names and initializer, with the initializer's signature where it is a function.
pub open spec fn decl_candidate_view(d: SalsaDeclTypeInfoSummary) -> CandidateView {
    CandidateView {
        origin: SalsaTypeCandidateOriginSummary::Decl(d.decl_id),
        explicit_type_offsets: d.explicit_type_offsets@,
        named_type_names: names_view(d.named_type_names@),
        initializer_offset: d.initializer_offset,
        value_expr_syntax_id: d.value_expr_syntax_id,
        value_result_index: d.value_result_index,
        source_call_syntax_id: d.source_call_syntax_id,
        signature_offset: d.value_signature_offset,
    }
}

/// The doc type of a property, as a list of at most one.
pub open spec fn opt_offsets(o: Option<u32>) -> Seq<u32> {
    match o {
        Some(x) => seq![x],
        None => Seq::empty(),
    }
}

/// The candidate that a property gives, with `signature_offset` as its signature.
pub open spec fn property_candidate_view(p: SalsaPropertySummary, signature_offset: Option<u32>) -> CandidateView {
    CandidateView {
        origin: SalsaTypeCandidateOriginSummary::Property(p.syntax_offset),
        explicit_type_offsets: opt_offsets(p.doc_type_offset),
        named_type_names: Seq::empty(),
        initializer_offset: p.value_expr_offset,
        value_expr_syntax_id: p.value_expr_syntax_id,
        value_result_index: p.value_result_index,
        source_call_syntax_id: p.source_call_syntax_id,
        signature_offset,
    }
}

/// The candidate of a declaration.
pub fn decl_type_to_candidate(decl_type: &SalsaDeclTypeInfoSummary) -> (r: SalsaTypeCandidateSummary)
    ensures
        r@ == decl_candidate_view(*decl_type),
{
    let r = SalsaTypeCandidateSummary {
        origin: SalsaTypeCandidateOriginSummary::Decl(decl_type.decl_id),
        explicit_type_offsets: clone_u32_vec(&decl_type.explicit_type_offsets),
        named_type_names: clone_strings(&decl_type.named_type_names),
        initializer_offset: decl_type.initializer_offset,
        value_expr_syntax_id: decl_type.value_expr_syntax_id,
        value_result_index: decl_type.value_result_index,
        source_call_syntax_id: decl_type.source_call_syntax_id,
        signature_offset: decl_type.value_signature_offset,
    };
    assert(r@.named_type_names =~= names_view(decl_type.named_type_names@));
    r
}

fn offsets_of(o: Option<u32>) -> (r: Vec<u32>)
    ensures
        r@ == opt_offsets(o),
{
    let mut r: Vec<u32> = Vec::new();
    if let Some(x) = o {
        r.push(x);
    }
    assert(r@ =~= opt_offsets(o));
    r
}

/// The candidate of a property, without a signature.
pub fn property_to_candidate(property: SalsaPropertySummary) -> (r: SalsaTypeCandidateSummary)
    ensures
        r@ == property_candidate_view(property, None),
{
    let r = SalsaTypeCandidateSummary {
        origin: SalsaTypeCandidateOriginSummary::Property(property.syntax_offset),
        explicit_type_offsets: offsets_of(property.doc_type_offset),
        named_type_names: Vec::new(),
        initializer_offset: property.value_expr_offset,
        value_expr_syntax_id: property.value_expr_syntax_id,
        value_result_index: property.value_result_index,
        source_call_syntax_id: property.source_call_syntax_id,
        signature_offset: None,
    };
    assert(r@.named_type_names =~= Seq::<Seq<char>>::empty());
    r
}

/// The candidate of a property, with its initializer as signature where a
/// signature starts there.
pub fn property_to_candidate_with_signatures(property: SalsaPropertySummary, signatures: &SalsaSignatureIndexSummary) -> (r:
    SalsaTypeCandidateSummary)
    ensures
        r@ == property_candidate_view(property, spec_signature_initializer(*signatures, property.value_expr_offset)),
{
    let r = SalsaTypeCandidateSummary {
        origin: SalsaTypeCandidateOriginSummary::Property(property.syntax_offset),
        explicit_type_offsets: offsets_of(property.doc_type_offset),
        named_type_names: Vec::new(),
        initializer_offset: property.value_expr_offset,
        value_expr_syntax_id: property.value_expr_syntax_id,
        value_result_index: property.value_result_index,
        source_call_syntax_id: property.source_call_syntax_id,
        signature_offset: find_signature_initializer_offset(signatures, property.value_expr_offset),
    };
    assert(r@.named_type_names =~= Seq::<Seq<char>>::empty());
    r
}

/// The candidates, each kept at its first occurrence, in order.
pub open spec fn first_candidate_occurrences(s: Seq<CandidateView>) -> Seq<CandidateView>
    decreases s.len(),
{
    if s.len() == 0 {
        s
    } else {
        let r = first_candidate_occurrences(s.drop_last());
        if r.contains(s.last()) { r } else { r.push(s.last()) }
    }
}

fn u32_vecs_equal(a: &Vec<u32>, b: &Vec<u32>) -> (r: bool)
    ensures
        r == (a@ == b@),
{
    if a.len() != b.len() {
        return false;
    }
    let mut i: usize = 0;
    while i < a.len()
        invariant
            i <= a@.len(),
            a@.len() == b@.len(),
            forall|k: int| 0 <= k < i ==> a@[k] == b@[k],
        decreases a@.len() - i,
    {
        if a[i] != b[i] {
            return false;
        }
        i = i + 1;
    }
    assert(a@ =~= b@);
    true
}

fn name_vecs_equal(a: &Vec<String>, b: &Vec<String>) -> (r: bool)
    ensures
        r == (names_view(a@) == names_view(b@)),
{
    if a.len() != b.len() {
        assert(names_view(a@).len() != names_view(b@).len());
        return false;
    }
    let mut i: usize = 0;
    while i < a.len()
        invariant
            i <= a@.len(),
            a@.len() == b@.len(),
            forall|k: int| 0 <= k < i ==> a@[k]@ == b@[k]@,
        decreases a@.len() - i,
    {
        if a[i] != b[i] {
            assert(names_view(a@)[i as int] != names_view(b@)[i as int]);
            return false;
        }
        i = i + 1;
    }
    assert(names_view(a@) =~= names_view(b@));
    true
}

fn syntax_ids_equal(a: Option<SalsaSyntaxIdSummary>, b: Option<SalsaSyntaxIdSummary>) -> (r: bool)
    ensures
        r == (a == b),
{
    match (a, b) {
        (Some(x), Some(y)) => x == y,
        (None, None) => true,
        _ => false,
    }
}

fn offsets_equal(a: Option<u32>, b: Option<u32>) -> (r: bool)
    ensures
        r == (a == b),
{
    match (a, b) {
        (Some(x), Some(y)) => x == y,
        (None, None) => true,
        _ => false,
    }
}

/// Whether two candidates hold the same.
fn candidates_equal(a: &SalsaTypeCandidateSummary, b: &SalsaTypeCandidateSummary) -> (r: bool)
    ensures
        r == (a@ == b@),
{
    let named_equal = name_vecs_equal(&a.named_type_names, &b.named_type_names);
    proof {
        assert(a@.named_type_names == names_view(a.named_type_names@));
        assert(b@.named_type_names == names_view(b.named_type_names@));
    }
    a.origin == b.origin && u32_vecs_equal(&a.explicit_type_offsets, &b.explicit_type_offsets) && named_equal
        && offsets_equal(a.initializer_offset, b.initializer_offset) && syntax_ids_equal(
        a.value_expr_syntax_id,
        b.value_expr_syntax_id,
    ) && a.value_result_index == b.value_result_index && syntax_ids_equal(a.source_call_syntax_id, b.source_call_syntax_id)
        && offsets_equal(a.signature_offset, b.signature_offset)
}

/// Keeps each candidate at its first occurrence, in order.
pub fn dedupe_type_candidates(candidates: Vec<SalsaTypeCandidateSummary>) -> (r: Vec<SalsaTypeCandidateSummary>)
    ensures
        candidates_view(r@) == first_candidate_occurrences(candidates_view(candidates@)),
{
    let ghost all = candidates_view(candidates@);
    let mut r: Vec<SalsaTypeCandidateSummary> = Vec::new();
    let mut i: usize = 0;
    while i < candidates.len()
        invariant
            i <= candidates@.len(),
            all == candidates_view(candidates@),
            candidates_view(r@) == first_candidate_occurrences(all.take(i as int)),
        decreases candidates@.len() - i,
    {
        let c = &candidates[i];
        assert(all.take(i + 1).drop_last() =~= all.take(i as int));
        assert(all.take(i + 1).last() == c@);
        let ghost rv = candidates_view(r@);
        let mut seen = false;
        let mut j: usize = 0;
        while j < r.len()
            invariant
                j <= r@.len(),
                rv == candidates_view(r@),
                seen == rv.take(j as int).contains(c@),
            decreases r@.len() - j,
        {
            proof {
                vstd::seq_lib::lemma_seq_contains_after_push(rv.take(j as int), rv[j as int], c@);
                assert(rv.take(j + 1) =~= rv.take(j as int).push(rv[j as int]));
            }
            if candidates_equal(&r[j], c) {
                seen = true;
            }
            j = j + 1;
        }
        assert(rv.take(rv.len() as int) =~= rv);
        if !seen {
            let ghost before = r@;
            r.push(clone_candidate(c));
            assert(candidates_view(r@) =~= candidates_view(before).push(c@));
        }
        i = i + 1;
    }
    assert(all.take(all.len() as int) =~= all);
    r
}

} // verus!
