//! The type candidates of a local declaration at a program point: the
//! assignments that reach the point, followed through the locals they copy and
//! the calls they take a result of, and narrowed by the conditions that hold
//! there.
use vstd::prelude::*;

use crate::assignment_flow::{SalsaBlockSummary, latest_assignments_at_program_point, spec_latest_assignments_at};
use crate::assignments::{SalsaLocalAssignmentQueryIndex, SalsaLocalAssignmentSummary, dedupe_local_assignments, first_occurrences};
use crate::decls::SalsaDeclTreeSummary;
use crate::doc_type::{SalsaDocTypeIndexSummary, SalsaDocTypeLoweredIndex};
use crate::lexical::lemma_filter_take_step;
use crate::narrow::{SalsaTypeNarrowSummary, narrow_matches_type_offset, spec_narrow_type_offsets};
use crate::narrow_sites::{SalsaNarrowSiteIndexSummary, collect_active_type_narrows, spec_active_narrows};
use crate::offsets::{insert_sorted_unique, lemma_sorted_unique_eq, strictly_sorted};
use crate::property::SalsaPropertyQueryIndex;
use crate::signature_model::{
    CandidateView, SalsaDocTypeRef, SalsaProgramPointTypeInfoSummary, candidates_view, SalsaSignatureExplainIndex, SalsaSignatureReturnExplainSummary,
    SalsaSignatureReturnItemExplainSummary, find_call_explain_by_syntax_id, return_rows_view,
    spec_find_call_explain_by_syntax_id,
};
use crate::type_candidates::decl_candidate_view;
use crate::uses::{SalsaNameUseResolutionSummary, SalsaNameUseSummary, SalsaUseSiteIndexSummary, find_name_use_at, opt_at, use_at_index};
use crate::type_info::{spec_find_decl_type_info, SalsaDeclTypeQueryIndex, SalsaSyntaxIdSummary, SalsaTypeCandidateOriginSummary, SalsaTypeCandidateSummary};

verus! {

/// The elements of a set of offsets, in increasing order.
pub open spec fn sorted_elements(s: Set<u32>) -> Seq<u32> {
    choose|q: Seq<u32>| strictly_sorted(q) && forall|x: u32| q.contains(x) <==> s.contains(x)
}

/// A strictly increasing sequence is the sorted form of the set of its elements.
pub proof fn lemma_sorted_elements(q: Seq<u32>, s: Set<u32>)
    requires
        strictly_sorted(q),
        forall|x: u32| q.contains(x) <==> s.contains(x),
    ensures
        sorted_elements(s) == q,
{
    let w = sorted_elements(s);
    assert(strictly_sorted(w) && forall|x: u32| w.contains(x) <==> s.contains(x));
    lemma_sorted_unique_eq(w, q);
}

/// The rows of doc types, each by its view.
pub open spec fn rows_view(rows: Seq<Vec<u32>>) -> Seq<Seq<u32>> {
    rows.map_values(|r: Vec<u32>| r@)
}

/// The doc types at position `slot` of the rows long enough to have one.
pub open spec fn slot_values(rows: Seq<Seq<u32>>, slot: int) -> Set<u32> {
    Set::new(|x: u32| exists|i: int| 0 <= i < rows.len() && slot < (#[trigger] rows[i]).len() && rows[i][slot] == x)
}

/// The doc types at position `slot` of the `@return` rows that have a read one there.
pub open spec fn return_slot_values(return_rows: Seq<(u32, Seq<SalsaSignatureReturnItemExplainSummary>)>, slot: int) -> Set<u32> {
    Set::new(
        |x: u32|
            exists|i: int|
                0 <= i < return_rows.len() && slot < (#[trigger] return_rows[i]).1.len() && return_rows[i].1[slot].doc_type.type_ref
                    == SalsaDocTypeRef::Node(x),
    )
}

/// The distinct doc types at position `slot_index` of the rows, increasing.
pub fn collect_return_slot_offsets(rows: &Vec<Vec<u32>>, slot_index: usize) -> (r: Vec<u32>)
    ensures
        r@ == sorted_elements(slot_values(rows_view(rows@), slot_index as int)),
{
    let ghost rs = rows_view(rows@);
    let mut r: Vec<u32> = Vec::new();
    let mut i: usize = 0;
    while i < rows.len()
        invariant
            rs == rows_view(rows@),
            i <= rows.len(),
            strictly_sorted(r@),
            forall|x: u32|
                r@.contains(x) <==> exists|k: int| 0 <= k < i && slot_index < (#[trigger] rs[k]).len() && rs[k][slot_index as int] == x,
        decreases rows.len() - i,
    {
        assert(rs[i as int] == rows@[i as int]@);
        if slot_index < rows[i].len() {
            let x = rows[i][slot_index];
            insert_sorted_unique(&mut r, x);
            assert forall|y: u32|
                r@.contains(y) <==> exists|k: int| 0 <= k < i + 1 && slot_index < (#[trigger] rs[k]).len() && rs[k][slot_index as int] == y by {
                if y == x {
                    assert(slot_index < rs[i as int].len() && rs[i as int][slot_index as int] == y);
                }
            }
        } else {
            assert forall|y: u32|
                r@.contains(y) <==> exists|k: int| 0 <= k < i + 1 && slot_index < (#[trigger] rs[k]).len() && rs[k][slot_index as int] == y by {
                if exists|k: int| 0 <= k < i + 1 && slot_index < (#[trigger] rs[k]).len() && rs[k][slot_index as int] == y {
                    let k = choose|k: int| 0 <= k < i + 1 && slot_index < (#[trigger] rs[k]).len() && rs[k][slot_index as int] == y;
                    assert(k != i);
                }
            }
        }
        i = i + 1;
    }
    proof { lemma_sorted_elements(r@, slot_values(rs, slot_index as int)); }
    r
}

/// The distinct doc types at position `slot_index` of the `@return` rows, increasing.
pub fn collect_signature_return_slot_offsets(return_rows: &Vec<SalsaSignatureReturnExplainSummary>, slot_index: usize) -> (r:
    Vec<u32>)
    ensures
        r@ == sorted_elements(return_slot_values(return_rows_view(return_rows@), slot_index as int)),
{
    let ghost rs = return_rows_view(return_rows@);
    let mut r: Vec<u32> = Vec::new();
    let mut i: usize = 0;
    while i < return_rows.len()
        invariant
            rs == return_rows_view(return_rows@),
            i <= return_rows.len(),
            strictly_sorted(r@),
            forall|x: u32|
                r@.contains(x) <==> exists|k: int|
                    0 <= k < i && slot_index < (#[trigger] rs[k]).1.len() && rs[k].1[slot_index as int].doc_type.type_ref
                        == SalsaDocTypeRef::Node(x),
        decreases return_rows.len() - i,
    {
        assert(rs[i as int] == return_rows@[i as int]@);
        let mut added = false;
        if slot_index < return_rows[i].items.len() {
            match return_rows[i].items[slot_index].doc_type.type_ref {
                SalsaDocTypeRef::Node(x) => {
                    insert_sorted_unique(&mut r, x);
                    added = true;
                    assert forall|y: u32|
                        r@.contains(y) <==> exists|k: int|
                            0 <= k < i + 1 && slot_index < (#[trigger] rs[k]).1.len() && rs[k].1[slot_index as int].doc_type.type_ref
                                == SalsaDocTypeRef::Node(y) by {
                        if y == x {
                            assert(slot_index < rs[i as int].1.len());
                        }
                    }
                },
                SalsaDocTypeRef::Incomplete => {},
            }
        }
        if !added {
            assert forall|y: u32|
                r@.contains(y) <==> exists|k: int|
                    0 <= k < i + 1 && slot_index < (#[trigger] rs[k]).1.len() && rs[k].1[slot_index as int].doc_type.type_ref
                        == SalsaDocTypeRef::Node(y) by {
                if exists|k: int|
                    0 <= k < i + 1 && slot_index < (#[trigger] rs[k]).1.len() && rs[k].1[slot_index as int].doc_type.type_ref
                        == SalsaDocTypeRef::Node(y) {
                    let k = choose|k: int|
                        0 <= k < i + 1 && slot_index < (#[trigger] rs[k]).1.len() && rs[k].1[slot_index as int].doc_type.type_ref
                            == SalsaDocTypeRef::Node(y);
                    assert(k != i);
                }
            }
        }
        i = i + 1;
    }
    proof { lemma_sorted_elements(r@, return_slot_values(rs, slot_index as int)); }
    r
}


/// The `---@return_overload` rows of the signature a call resolves to: the
/// call's node, and the doc types of each row, in order.
#[derive(Clone, Debug)]
pub struct SalsaCallReturnOverloadsSummary {
    pub call_syntax_id: SalsaSyntaxIdSummary,
    pub rows: Vec<Vec<u32>>,
}

/// The `---@return_overload` rows of the calls of a file.
#[derive(Clone, Debug)]
pub struct SalsaCallReturnOverloadIndex {
    pub calls: Vec<SalsaCallReturnOverloadsSummary>,
}

/// The rows of the first entry for the call `id`; none where it has no entry.
pub open spec fn overload_rows_for(s: Seq<SalsaCallReturnOverloadsSummary>, id: SalsaSyntaxIdSummary) -> Seq<Seq<u32>>
    decreases s.len(),
{
    if s.len() == 0 {
        seq![]
    } else if s[0].call_syntax_id == id {
        rows_view(s[0].rows@)
    } else {
        overload_rows_for(s.drop_first(), id)
    }
}

/// Finds the `---@return_overload` rows of the call `id`.
pub fn find_call_return_overload_rows(index: &SalsaCallReturnOverloadIndex, id: SalsaSyntaxIdSummary) -> (r: Vec<Vec<u32>>)
    ensures
        rows_view(r@) == overload_rows_for(index.calls@, id),
{
    let ghost s = index.calls@;
    let mut i: usize = 0;
    assert(s.subrange(0, s.len() as int) =~= s);
    while i < index.calls.len()
        invariant
            s == index.calls@,
            i <= s.len(),
            overload_rows_for(s, id) == overload_rows_for(s.subrange(i as int, s.len() as int), id),
        decreases s.len() - i,
    {
        let ghost rest = s.subrange(i as int, s.len() as int);
        assert(rest.drop_first() =~= s.subrange(i + 1, s.len() as int));
        if index.calls[i].call_syntax_id == id {
            let mut r: Vec<Vec<u32>> = Vec::new();
            let mut j: usize = 0;
            while j < index.calls[i].rows.len()
                invariant
                    i < s.len(),
                    s == index.calls@,
                    j <= s[i as int].rows@.len(),
                    rows_view(r@) == rows_view(s[i as int].rows@).take(j as int),
                decreases s[i as int].rows@.len() - j,
            {
                let row = crate::signature_model::clone_u32_vec(&index.calls[i].rows[j]);
                let ghost before = r@;
                r.push(row);
                assert(r@ == before.push(row));
                assert(row@ == s[i as int].rows@[j as int]@);
                assert(rows_view(r@) =~= rows_view(before).push(row@));
                assert(rows_view(r@) =~= rows_view(s[i as int].rows@).take(j + 1));
                j = j + 1;
            }
            assert(rows_view(s[i as int].rows@).take(j as int) =~= rows_view(s[i as int].rows@));
            return r;
        }
        i = i + 1;
    }
    assert(s.subrange(i as int, s.len() as int) =~= Seq::<SalsaCallReturnOverloadsSummary>::empty());
    Vec::new()
}

/// What the type candidates of a local at a program point are read from.
pub struct PointInputs {
    pub decls: SalsaDeclTypeQueryIndex,
    pub asg: Seq<SalsaLocalAssignmentSummary>,
    pub root: SalsaBlockSummary,
    pub tree: SalsaDeclTreeSummary,
    pub sites: SalsaNarrowSiteIndexSummary,
    pub calls: SalsaSignatureExplainIndex,
    pub overloads: Seq<SalsaCallReturnOverloadsSummary>,
    pub props: SalsaPropertyQueryIndex,
    pub doc_types: SalsaDocTypeIndexSummary,
    pub lowered: SalsaDocTypeLoweredIndex,
    pub p: u32,
}

/// The declarations that assign with `a`'s statement from the call `cid`.
pub open spec fn seed_decls(asg: Seq<SalsaLocalAssignmentSummary>, a: SalsaLocalAssignmentSummary, cid: SalsaSyntaxIdSummary) -> Set<u32> {
    Set::new(
        |d: u32|
            exists|i: int|
                0 <= i < asg.len() && (#[trigger] asg[i]).syntax_offset == a.syntax_offset && asg[i].source_call_syntax_id
                    == Some(cid) && asg[i].decl_id == d,
    )
}

/// The assignments from the call `cid` that reach the point for each of `seeds`, in turn.
pub open spec fn surviving_from(
    root: SalsaBlockSummary,
    asg: Seq<SalsaLocalAssignmentSummary>,
    p: u32,
    seeds: Seq<u32>,
    cid: SalsaSyntaxIdSummary,
) -> Seq<SalsaLocalAssignmentSummary>
    decreases seeds.len(),
{
    if seeds.len() == 0 {
        seq![]
    } else {
        surviving_from(root, asg, p, seeds.drop_last(), cid) + match spec_latest_assignments_at(root, asg, seeds.last(), p) {
            Some(l) => l.filter(|x: SalsaLocalAssignmentSummary| from_call(x, cid)),
            None => seq![],
        }
    }
}

/// The assignment takes its value from the call `cid`.
pub open spec fn from_call(x: SalsaLocalAssignmentSummary, cid: SalsaSyntaxIdSummary) -> bool {
    x.source_call_syntax_id == Some(cid)
}

/// The assignments of `a`'s statement from the call `cid` that still reach the
/// point: for each declaration it assigns, in increasing order, those of its
/// reaching assignments that come from the call, without repeats.
pub open spec fn call_group(c: PointInputs, a: SalsaLocalAssignmentSummary, cid: SalsaSyntaxIdSummary) -> Seq<SalsaLocalAssignmentSummary> {
    first_occurrences(surviving_from(c.root, c.asg, c.p, sorted_elements(seed_decls(c.asg, a, cid)), cid))
}

/// Every narrowing in `ns` keeps something of the doc type under `o`.
pub open spec fn narrows_keep(c: PointInputs, o: u32, ns: Seq<SalsaTypeNarrowSummary>) -> bool {
    forall|j: int|
        0 <= j < ns.len() ==> spec_narrow_type_offsets(seq![o], seq![#[trigger] ns[j]], c.props, c.doc_types.types@, c.lowered.types@).len()
            > 0
}

/// A row of results fits the other assignments of the group: each has a doc type
/// in the row at its result, which the narrowings of its declaration at the
/// point all keep something of.
pub open spec fn row_fits(c: PointInputs, a: SalsaLocalAssignmentSummary, group: Seq<SalsaLocalAssignmentSummary>, row: Seq<u32>) -> bool {
    forall|k: int|
        0 <= k < group.len() && (#[trigger] group[k]).decl_id != a.decl_id ==> group[k].value_result_index < row.len()
            && narrows_keep(c, row[group[k].value_result_index as int], spec_active_narrows(c.tree, c.sites, group[k].decl_id, c.p))
}

/// The candidate of an assignment that takes a result of a call: the doc types at
/// its result of the `---@return_overload` rows of the signature the call resolves
/// to (where the other assignments of the group narrow them to rows that fit, those
/// rows), or of its `@return` rows where it has no overload rows. None where the
/// value is no call, the call is not explained, or it resolves to no signature.
pub open spec fn call_cands(c: PointInputs, a: SalsaLocalAssignmentSummary) -> Option<Seq<CandidateView>> {
    match a.source_call_syntax_id {
        None => None,
        Some(cid) => match spec_find_call_explain_by_syntax_id(c.calls, cid) {
            None => None,
            Some(ex) => if ex.resolved_signature_offset.is_none() {
                None
            } else {
                let rows = overload_rows_for(c.overloads, cid);
                let idx = a.value_result_index as int;
                let base = if rows.len() > 0 {
                    sorted_elements(slot_values(rows, idx))
                } else {
                    sorted_elements(return_slot_values(ex.returns, idx))
                };
                let explicit = if rows.len() > 0 {
                    let group = call_group(c, a, cid);
                    if group.len() > 1 {
                        let corr = sorted_elements(slot_values(rows.filter(|row: Seq<u32>| row_fits(c, a, group, row)), idx));
                        if corr.len() > 0 { corr } else { base }
                    } else {
                        base
                    }
                } else {
                    base
                };
                Some(seq![CandidateView {
                    origin: SalsaTypeCandidateOriginSummary::Assignment(a.syntax_offset),
                    explicit_type_offsets: explicit,
                    named_type_names: seq![],
                    initializer_offset: a.value_expr_offset,
                    value_expr_syntax_id: a.value_expr_syntax_id,
                    value_result_index: a.value_result_index,
                    source_call_syntax_id: a.source_call_syntax_id,
                    signature_offset: ex.resolved_signature_offset,
                }])
            },
        },
    }
}

/// The arguments of a program-point query, by reference.
pub struct ProgramPointQuery<'a> {
    pub decls: &'a SalsaDeclTypeQueryIndex,
    pub assignments: &'a SalsaLocalAssignmentQueryIndex,
    pub root: &'a SalsaBlockSummary,
    pub tree: &'a SalsaDeclTreeSummary,
    pub sites: &'a SalsaNarrowSiteIndexSummary,
    pub calls: &'a SalsaSignatureExplainIndex,
    pub overloads: &'a SalsaCallReturnOverloadIndex,
    pub props: &'a SalsaPropertyQueryIndex,
    pub doc_types: &'a SalsaDocTypeIndexSummary,
    pub lowered: &'a SalsaDocTypeLoweredIndex,
    pub p: u32,
}

/// What a query reads, as values.
pub open spec fn inputs_of(q: &ProgramPointQuery) -> PointInputs {
    PointInputs {
        decls: *q.decls,
        asg: q.assignments.assignments@,
        root: *q.root,
        tree: *q.tree,
        sites: *q.sites,
        calls: *q.calls,
        overloads: q.overloads.calls@,
        props: *q.props,
        doc_types: *q.doc_types,
        lowered: *q.lowered,
        p: q.p,
    }
}

/// The candidates, by their views, where there are.
pub open spec fn opt_cands_view(r: Option<Vec<SalsaTypeCandidateSummary>>) -> Option<Seq<CandidateView>> {
    match r {
        Some(v) => Some(candidates_view(v@)),
        None => None,
    }
}

/// The declarations assigned by `a`'s statement from the call `cid`, increasing.
fn collect_seed_decls(asg: &Vec<SalsaLocalAssignmentSummary>, a: &SalsaLocalAssignmentSummary, cid: SalsaSyntaxIdSummary) -> (r:
    Vec<u32>)
    ensures
        r@ == sorted_elements(seed_decls(asg@, *a, cid)),
{
    let mut r: Vec<u32> = Vec::new();
    let mut i: usize = 0;
    while i < asg.len()
        invariant
            i <= asg.len(),
            strictly_sorted(r@),
            forall|x: u32|
                r@.contains(x) <==> exists|k: int|
                    0 <= k < i && (#[trigger] asg@[k]).syntax_offset == a.syntax_offset && asg@[k].source_call_syntax_id == Some(cid)
                        && asg@[k].decl_id == x,
        decreases asg.len() - i,
    {
        if asg[i].syntax_offset == a.syntax_offset && asg[i].source_call_syntax_id == Some(cid) {
            let x = asg[i].decl_id;
            insert_sorted_unique(&mut r, x);
            assert forall|y: u32|
                r@.contains(y) <==> exists|k: int|
                    0 <= k < i + 1 && (#[trigger] asg@[k]).syntax_offset == a.syntax_offset && asg@[k].source_call_syntax_id == Some(cid)
                        && asg@[k].decl_id == y by {
                if y == x {
                    assert(asg@[i as int].decl_id == y);
                }
            }
        } else {
            assert forall|y: u32|
                r@.contains(y) <==> exists|k: int|
                    0 <= k < i + 1 && (#[trigger] asg@[k]).syntax_offset == a.syntax_offset && asg@[k].source_call_syntax_id == Some(cid)
                        && asg@[k].decl_id == y by {
                if exists|k: int|
                    0 <= k < i + 1 && (#[trigger] asg@[k]).syntax_offset == a.syntax_offset && asg@[k].source_call_syntax_id == Some(cid)
                        && asg@[k].decl_id == y {
                    let k = choose|k: int|
                        0 <= k < i + 1 && (#[trigger] asg@[k]).syntax_offset == a.syntax_offset && asg@[k].source_call_syntax_id
                            == Some(cid) && asg@[k].decl_id == y;
                    assert(k != i);
                }
            }
        }
        i = i + 1;
    }
    proof { lemma_sorted_elements(r@, seed_decls(asg@, *a, cid)); }
    r
}

/// The assignments of `l` that take their value from the call `cid`, in order.
fn keep_from_call(l: &Vec<SalsaLocalAssignmentSummary>, cid: SalsaSyntaxIdSummary) -> (r: Vec<SalsaLocalAssignmentSummary>)
    ensures
        r@ == l@.filter(|x: SalsaLocalAssignmentSummary| from_call(x, cid)),
{
    let mut r: Vec<SalsaLocalAssignmentSummary> = Vec::new();
    let mut i: usize = 0;
    while i < l.len()
        invariant
            i <= l.len(),
            r@ == l@.take(i as int).filter(|x: SalsaLocalAssignmentSummary| from_call(x, cid)),
        decreases l.len() - i,
    {
        proof { lemma_filter_take_step(l@, |x: SalsaLocalAssignmentSummary| from_call(x, cid), i as int); }
        if l[i].source_call_syntax_id == Some(cid) {
            r.push(l[i]);
        }
        i = i + 1;
    }
    assert(l@.take(i as int) =~= l@);
    r
}

/// The assignments of `a`'s statement from the call `cid` that still reach the point (see `call_group`).
fn collect_surviving_call_group_assignments(q: &ProgramPointQuery, a: &SalsaLocalAssignmentSummary, cid: SalsaSyntaxIdSummary) -> (r:
    Vec<SalsaLocalAssignmentSummary>)
    ensures
        r@ == call_group(inputs_of(q), *a, cid),
{
    let seeds = collect_seed_decls(&q.assignments.assignments, a, cid);
    let mut out: Vec<SalsaLocalAssignmentSummary> = Vec::new();
    let mut i: usize = 0;
    while i < seeds.len()
        invariant
            i <= seeds.len(),
            out@ == surviving_from(*q.root, q.assignments.assignments@, q.p, seeds@.take(i as int), cid),
        decreases seeds.len() - i,
    {
        let ghost t = seeds@.take(i + 1);
        assert(t.drop_last() =~= seeds@.take(i as int));
        assert(t.last() == seeds@[i as int]);
        match latest_assignments_at_program_point(q.root, q.assignments, seeds[i], q.p) {
            Some(l) => {
                let kept = keep_from_call(&l, cid);
                let ghost before = out@;
                let mut j: usize = 0;
                while j < kept.len()
                    invariant
                        j <= kept.len(),
                        out@ == before + kept@.take(j as int),
                    decreases kept.len() - j,
                {
                    out.push(kept[j]);
                    assert(kept@.take(j + 1) =~= kept@.take(j as int).push(kept@[j as int]));
                    assert(out@ =~= before + kept@.take(j + 1));
                    j = j + 1;
                }
                assert(kept@.take(j as int) =~= kept@);
            },
            None => {
                assert(out@ =~= out@ + Seq::<SalsaLocalAssignmentSummary>::empty());
            },
        }
        i = i + 1;
    }
    assert(seeds@.take(i as int) =~= seeds@);
    dedupe_local_assignments(out)
}

/// Whether the row fits the other assignments of the group (see `row_fits`).
fn row_fits_group(q: &ProgramPointQuery, a: &SalsaLocalAssignmentSummary, group: &Vec<SalsaLocalAssignmentSummary>, row: &Vec<u32>) -> (b:
    bool)
    ensures
        b == row_fits(inputs_of(q), *a, group@, row@),
{
    let ghost c = inputs_of(q);
    let mut k: usize = 0;
    while k < group.len()
        invariant
            c == inputs_of(q),
            k <= group.len(),
            forall|kk: int|
                0 <= kk < k && (#[trigger] group@[kk]).decl_id != a.decl_id ==> group@[kk].value_result_index < row@.len()
                    && narrows_keep(c, row@[group@[kk].value_result_index as int], spec_active_narrows(c.tree, c.sites, group@[kk].decl_id, c.p)),
        decreases group.len() - k,
    {
        if group[k].decl_id != a.decl_id {
            let idx = group[k].value_result_index;
            if idx >= row.len() {
                return false;
            }
            let ns = collect_active_type_narrows(q.tree, q.sites, group[k].decl_id, q.p);
            let mut j: usize = 0;
            while j < ns.len()
                invariant
                    c == inputs_of(q),
                    k < group.len(),
                    idx < row.len(),
                    idx == group@[k as int].value_result_index,
                    group@[k as int].decl_id != a.decl_id,
                    ns@ == spec_active_narrows(c.tree, c.sites, group@[k as int].decl_id, c.p),
                    j <= ns.len(),
                    forall|jj: int|
                        0 <= jj < j ==> spec_narrow_type_offsets(seq![row@[idx as int]], seq![#[trigger] ns@[jj]], c.props, c.doc_types.types@, c.lowered.types@)
                            .len() > 0,
                decreases ns.len() - j,
            {
                if !narrow_matches_type_offset(row[idx], &ns[j], q.props, q.doc_types, q.lowered) {
                    proof {
                        assert(!narrows_keep(c, row@[idx as int], ns@));
                        assert((#[trigger] group@[k as int]).decl_id != a.decl_id);
                    }
                    return false;
                }
                j = j + 1;
            }
        }
        k = k + 1;
    }
    true
}

/// The rows that fit the other assignments of the group, in order.
fn keep_fitting_rows(q: &ProgramPointQuery, a: &SalsaLocalAssignmentSummary, group: &Vec<SalsaLocalAssignmentSummary>, rows: &Vec<Vec<u32>>) -> (r:
    Vec<Vec<u32>>)
    ensures
        rows_view(r@) == rows_view(rows@).filter(|row: Seq<u32>| row_fits(inputs_of(q), *a, group@, row)),
{
    let ghost rs = rows_view(rows@);
    let ghost f = |row: Seq<u32>| row_fits(inputs_of(q), *a, group@, row);
    let mut r: Vec<Vec<u32>> = Vec::new();
    let mut i: usize = 0;
    while i < rows.len()
        invariant
            rs == rows_view(rows@),
            f == (|row: Seq<u32>| row_fits(inputs_of(q), *a, group@, row)),
            i <= rows.len(),
            rows_view(r@) == rs.take(i as int).filter(f),
        decreases rows.len() - i,
    {
        proof { lemma_filter_take_step(rs, f, i as int); }
        assert(rs[i as int] == rows@[i as int]@);
        if row_fits_group(q, a, group, &rows[i]) {
            let row = crate::signature_model::clone_u32_vec(&rows[i]);
            let ghost before = r@;
            r.push(row);
            assert(rows_view(r@) =~= rows_view(before).push(row@));
        }
        i = i + 1;
    }
    assert(rs.take(i as int) =~= rs);
    r
}

/// The candidates of an assignment that takes a result of a call (see `call_cands`).
pub fn call_assignment_candidates(q: &ProgramPointQuery, a: &SalsaLocalAssignmentSummary) -> (r: Option<Vec<SalsaTypeCandidateSummary>>)
    ensures
        opt_cands_view(r) == call_cands(inputs_of(q), *a),
{
    let cid = match a.source_call_syntax_id {
        Some(cid) => cid,
        None => return None,
    };
    let ex = match find_call_explain_by_syntax_id(q.calls, cid) {
        Some(ex) => ex,
        None => return None,
    };
    if ex.resolved_signature_offset.is_none() {
        return None;
    }
    let rows = find_call_return_overload_rows(q.overloads, cid);
    let idx = a.value_result_index;
    let base = if rows.len() > 0 {
        collect_return_slot_offsets(&rows, idx)
    } else {
        collect_signature_return_slot_offsets(&ex.returns, idx)
    };
    let explicit = if rows.len() > 0 {
        let group = collect_surviving_call_group_assignments(q, a, cid);
        if group.len() > 1 {
            let filtered = keep_fitting_rows(q, a, &group, &rows);
            let corr = collect_return_slot_offsets(&filtered, idx);
            if corr.len() > 0 { corr } else { base }
        } else {
            base
        }
    } else {
        base
    };
    let cand = SalsaTypeCandidateSummary {
        origin: SalsaTypeCandidateOriginSummary::Assignment(a.syntax_offset),
        explicit_type_offsets: explicit,
        named_type_names: Vec::new(),
        initializer_offset: a.value_expr_offset,
        value_expr_syntax_id: a.value_expr_syntax_id,
        value_result_index: a.value_result_index,
        source_call_syntax_id: a.source_call_syntax_id,
        signature_offset: ex.resolved_signature_offset,
    };
    assert(cand@.named_type_names =~= Seq::<Seq<char>>::empty());
    let mut v: Vec<SalsaTypeCandidateSummary> = Vec::new();
    v.push(cand);
    assert(candidates_view(v@) =~= seq![cand@]);
    Some(v)
}


/// The declarations that some assignment of the file assigns.
pub open spec fn assigned_decls(asg: Seq<SalsaLocalAssignmentSummary>) -> Set<u32> {
    asg.map_values(|a: SalsaLocalAssignmentSummary| a.decl_id).to_set()
}

/// How many assigned declarations a chase has not followed yet.
pub open spec fn unvisited_count(c: PointInputs, visited: Set<u32>) -> nat {
    assigned_decls(c.asg).difference(visited).len()
}

/// Following one more assigned declaration leaves fewer to follow.
pub proof fn lemma_unvisited_shrinks(c: PointInputs, visited: Set<u32>, d: u32)
    requires
        assigned_decls(c.asg).contains(d),
        !visited.contains(d),
    ensures
        unvisited_count(c, visited.insert(d)) < unvisited_count(c, visited),
{
    let all = assigned_decls(c.asg);
    vstd::seq_lib::seq_to_set_is_finite(c.asg.map_values(|a: SalsaLocalAssignmentSummary| a.decl_id));
    vstd::set::axiom_set_difference_finite(all, visited);
    assert(all.difference(visited.insert(d)) =~= all.difference(visited).remove(d));
    vstd::set::axiom_set_remove_len(all.difference(visited), d);
}

/// The candidate of an assignment that copies another local: the doc types,
/// names and signature of that local's candidate, and the assignment's own value.
pub open spec fn alias_view(a: SalsaLocalAssignmentSummary, src: CandidateView) -> CandidateView {
    CandidateView {
        origin: SalsaTypeCandidateOriginSummary::Assignment(a.syntax_offset),
        explicit_type_offsets: src.explicit_type_offsets,
        named_type_names: src.named_type_names,
        initializer_offset: a.value_expr_offset,
        value_expr_syntax_id: a.value_expr_syntax_id,
        value_result_index: a.value_result_index,
        source_call_syntax_id: a.source_call_syntax_id,
        signature_offset: src.signature_offset,
    }
}

/// The candidate of an assignment known by its value alone.
pub open spec fn value_view(a: SalsaLocalAssignmentSummary) -> CandidateView {
    CandidateView {
        origin: SalsaTypeCandidateOriginSummary::Assignment(a.syntax_offset),
        explicit_type_offsets: seq![],
        named_type_names: seq![],
        initializer_offset: a.value_expr_offset,
        value_expr_syntax_id: a.value_expr_syntax_id,
        value_result_index: a.value_result_index,
        source_call_syntax_id: a.source_call_syntax_id,
        signature_offset: None,
    }
}

/// A candidate carries no type of its own: no signature, doc type or type name.
pub open spec fn is_untyped(x: CandidateView) -> bool {
    x.signature_offset.is_none() && x.explicit_type_offsets.len() == 0 && x.named_type_names.len() == 0
}

/// The candidates of assignment `a` at the point, the locals in `visited` being
/// followed already: those of the call it takes a result of; else, for a `local`
/// statement whose declaration has type information, that declaration's candidate,
/// or, where that carries no type, the candidates of the local it copies taken
/// over; else the candidates of the local it copies taken over; else its value.
pub open spec fn assignment_cands(c: PointInputs, a: SalsaLocalAssignmentSummary, visited: Set<u32>) -> Seq<CandidateView>
    decreases unvisited_count(c, visited), 1nat, 0nat,
{
    match call_cands(c, a) {
        Some(cs) => cs,
        None => {
            let src = match a.source_decl_id {
                Some(d) => source_cands(c, d, visited),
                None => None,
            };
            let info = spec_find_decl_type_info(c.decls, a.decl_id);
            if a.is_local_declaration && info.is_some() {
                let cand = decl_candidate_view(info.unwrap());
                if is_untyped(cand) && src.is_some() {
                    src.unwrap().map_values(|x: CandidateView| alias_view(a, x))
                } else {
                    seq![cand]
                }
            } else if src.is_some() {
                src.unwrap().map_values(|x: CandidateView| alias_view(a, x))
            } else {
                seq![value_view(a)]
            }
        },
    }
}

/// The candidates of local `d` at the point, followed from an assignment: none
/// where it is followed already; the candidates of the assignments to it that
/// reach the point, or where none does its declaration's candidate; none where
/// that leaves none.
pub open spec fn source_cands(c: PointInputs, d: u32, visited: Set<u32>) -> Option<Seq<CandidateView>>
    decreases unvisited_count(c, visited), 0nat, 0nat,
{
    if visited.contains(d) {
        None
    } else {
        let found = if assigned_decls(c.asg).contains(d) {
            spec_latest_assignments_at(c.root, c.asg, d, c.p)
        } else {
            None
        };
        let cands = match found {
            Some(l) => {
                proof {
                    lemma_unvisited_shrinks(c, visited, d);
                }
                Some(list_cands(c, l, visited.insert(d)))
            },
            None => match spec_find_decl_type_info(c.decls, d) {
                Some(i) => Some(seq![decl_candidate_view(i)]),
                None => None,
            },
        };
        match cands {
            Some(x) => if x.len() > 0 { Some(x) } else { None },
            None => None,
        }
    }
}

/// The candidates of the assignments of `l`, in turn.
pub open spec fn list_cands(c: PointInputs, l: Seq<SalsaLocalAssignmentSummary>, visited: Set<u32>) -> Seq<CandidateView>
    decreases unvisited_count(c, visited), 2nat, l.len(),
{
    if l.len() == 0 {
        seq![]
    } else {
        list_cands(c, l.drop_last(), visited) + assignment_cands(c, l.last(), visited)
    }
}

fn contains_decl(v: &Vec<u32>, d: u32) -> (b: bool)
    ensures
        b == v@.contains(d),
{
    let mut i: usize = 0;
    while i < v.len()
        invariant
            i <= v.len(),
            forall|k: int| 0 <= k < i ==> v@[k] != d,
        decreases v.len() - i,
    {
        if v[i] == d {
            return true;
        }
        i = i + 1;
    }
    false
}

fn assigns_decl(asg: &Vec<SalsaLocalAssignmentSummary>, d: u32) -> (b: bool)
    ensures
        b == assigned_decls(asg@).contains(d),
{
    let ghost ids = asg@.map_values(|a: SalsaLocalAssignmentSummary| a.decl_id);
    let mut i: usize = 0;
    while i < asg.len()
        invariant
            ids == asg@.map_values(|a: SalsaLocalAssignmentSummary| a.decl_id),
            i <= asg.len(),
            forall|k: int| 0 <= k < i ==> asg@[k].decl_id != d,
        decreases asg.len() - i,
    {
        if asg[i].decl_id == d {
            assert(ids[i as int] == d);
            return true;
        }
        i = i + 1;
    }
    assert(!ids.contains(d)) by {
        if ids.contains(d) {
            let k = choose|k: int| 0 <= k < ids.len() && ids[k] == d;
            assert(asg@[k].decl_id == d);
        }
    }
    false
}

fn append_candidates(out: &mut Vec<SalsaTypeCandidateSummary>, cs: Vec<SalsaTypeCandidateSummary>)
    ensures
        candidates_view(final(out)@) == candidates_view(old(out)@) + candidates_view(cs@),
{
    let ghost start = candidates_view(out@);
    let mut j: usize = 0;
    while j < cs.len()
        invariant
            j <= cs.len(),
            candidates_view(out@) == start + candidates_view(cs@).take(j as int),
        decreases cs.len() - j,
    {
        let ghost before = out@;
        out.push(crate::signature_model::clone_candidate(&cs[j]));
        assert(candidates_view(out@) =~= candidates_view(before).push(cs@[j as int]@));
        assert(candidates_view(cs@).take(j + 1) =~= candidates_view(cs@).take(j as int).push(cs@[j as int]@));
        j = j + 1;
    }
    assert(candidates_view(cs@).take(j as int) =~= candidates_view(cs@));
}

fn alias_candidates(a: &SalsaLocalAssignmentSummary, src: &Vec<SalsaTypeCandidateSummary>) -> (r: Vec<SalsaTypeCandidateSummary>)
    ensures
        candidates_view(r@) == candidates_view(src@).map_values(|x: CandidateView| alias_view(*a, x)),
{
    let mut r: Vec<SalsaTypeCandidateSummary> = Vec::new();
    let mut j: usize = 0;
    while j < src.len()
        invariant
            j <= src.len(),
            candidates_view(r@) == candidates_view(src@).take(j as int).map_values(|x: CandidateView| alias_view(*a, x)),
        decreases src.len() - j,
    {
        let s = &src[j];
        let cand = SalsaTypeCandidateSummary {
            origin: SalsaTypeCandidateOriginSummary::Assignment(a.syntax_offset),
            explicit_type_offsets: crate::signature_model::clone_u32_vec(&s.explicit_type_offsets),
            named_type_names: s.named_type_names.clone(),
            initializer_offset: a.value_expr_offset,
            value_expr_syntax_id: a.value_expr_syntax_id,
            value_result_index: a.value_result_index,
            source_call_syntax_id: a.source_call_syntax_id,
            signature_offset: s.signature_offset,
        };
        assert(cand.named_type_names@ =~= s.named_type_names@);
        assert(cand@ == alias_view(*a, s@));
        let ghost before = r@;
        r.push(cand);
        assert(candidates_view(r@) =~= candidates_view(before).push(cand@));
        assert(candidates_view(src@).take(j + 1) =~= candidates_view(src@).take(j as int).push(src@[j as int]@));
        j = j + 1;
    }
    assert(candidates_view(src@).take(j as int) =~= candidates_view(src@));
    r
}

/// The candidates of assignment `a` at the point (see `assignment_cands`), the
/// locals in `visited` being followed already.
pub fn assignment_to_program_point_candidates_with_visited(
    q: &ProgramPointQuery,
    a: &SalsaLocalAssignmentSummary,
    visited: &mut Vec<u32>,
) -> (r: Vec<SalsaTypeCandidateSummary>)
    ensures
        final(visited)@ == old(visited)@,
        candidates_view(r@) == assignment_cands(inputs_of(q), *a, old(visited)@.to_set()),
    decreases unvisited_count(inputs_of(q), old(visited)@.to_set()), 1nat, 0nat,
{
    match call_assignment_candidates(q, a) {
        Some(cs) => return cs,
        None => {},
    }
    let src = match a.source_decl_id {
        Some(d) => source_decl_candidates_at_program_point(q, d, visited),
        None => None,
    };
    if a.is_local_declaration {
        match crate::type_info::find_decl_type_info(q.decls, a.decl_id) {
            Some(info) => {
                let cand = crate::type_candidates::decl_type_to_candidate(info);
                if cand.signature_offset.is_none() && cand.explicit_type_offsets.len() == 0 && cand.named_type_names.len() == 0 {
                    match &src {
                        Some(sc) => return alias_candidates(a, sc),
                        None => {},
                    }
                }
                let mut v: Vec<SalsaTypeCandidateSummary> = Vec::new();
                v.push(cand);
                assert(candidates_view(v@) =~= seq![cand@]);
                return v;
            },
            None => {},
        }
    }
    match &src {
        Some(sc) => alias_candidates(a, sc),
        None => {
            let cand = SalsaTypeCandidateSummary {
                origin: SalsaTypeCandidateOriginSummary::Assignment(a.syntax_offset),
                explicit_type_offsets: Vec::new(),
                named_type_names: Vec::new(),
                initializer_offset: a.value_expr_offset,
                value_expr_syntax_id: a.value_expr_syntax_id,
                value_result_index: a.value_result_index,
                source_call_syntax_id: a.source_call_syntax_id,
                signature_offset: None,
            };
            assert(cand@.explicit_type_offsets =~= Seq::<u32>::empty());
            assert(cand@.named_type_names =~= Seq::<Seq<char>>::empty());
            assert(cand@ == value_view(*a));
            let mut v: Vec<SalsaTypeCandidateSummary> = Vec::new();
            v.push(cand);
            assert(candidates_view(v@) =~= seq![cand@]);
            v
        },
    }
}

/// The candidates of local `d` at the point, followed from an assignment (see
/// `source_cands`), the locals in `visited` being followed already.
pub fn source_decl_candidates_at_program_point(
    q: &ProgramPointQuery,
    d: u32,
    visited: &mut Vec<u32>,
) -> (r: Option<Vec<SalsaTypeCandidateSummary>>)
    ensures
        final(visited)@ == old(visited)@,
        opt_cands_view(r) == source_cands(inputs_of(q), d, old(visited)@.to_set()),
    decreases unvisited_count(inputs_of(q), old(visited)@.to_set()), 0nat, 0nat,
{
    let ghost c = inputs_of(q);
    let ghost vs = visited@.to_set();
    if contains_decl(visited, d) {
        assert(vs.contains(d));
        return None;
    }
    assert(!vs.contains(d));
    let found = if assigns_decl(&q.assignments.assignments, d) {
        latest_assignments_at_program_point(q.root, q.assignments, d, q.p)
    } else {
        None
    };
    let cands = match found {
        Some(l) => {
            proof { lemma_unvisited_shrinks(c, vs, d); }
            let ghost start = visited@;
            visited.push(d);
            assert forall|x: u32| visited@.to_set().contains(x) <==> vs.insert(d).contains(x) by {
                assert(visited@ == start.push(d));
                if visited@.contains(x) {
                    let k = choose|k: int| 0 <= k < visited@.len() && visited@[k] == x;
                    if k < start.len() { assert(start[k] == x); }
                }
                if start.contains(x) {
                    let k = choose|k: int| 0 <= k < start.len() && start[k] == x;
                    assert(visited@[k] == x);
                }
                if x == d { assert(visited@[start.len() as int] == x); }
            }
            assert(visited@.to_set() =~= vs.insert(d));
            let mut out: Vec<SalsaTypeCandidateSummary> = Vec::new();
            let mut i: usize = 0;
            while i < l.len()
                invariant
                    c == inputs_of(q),
                    vs == start.to_set(),
                    start == old(visited)@,
                    visited@ == start.push(d),
                    visited@.to_set() == vs.insert(d),
                    unvisited_count(c, vs.insert(d)) < unvisited_count(c, vs),
                    i <= l.len(),
                    candidates_view(out@) == list_cands(c, l@.take(i as int), vs.insert(d)),
                decreases l.len() - i,
            {
                let ghost t = l@.take(i + 1);
                assert(t.drop_last() =~= l@.take(i as int));
                assert(t.last() == l@[i as int]);
                let cs = assignment_to_program_point_candidates_with_visited(q, &l[i], visited);
                append_candidates(&mut out, cs);
                i = i + 1;
            }
            assert(l@.take(i as int) =~= l@);
            visited.pop();
            assert(visited@ =~= start);
            Some(out)
        },
        None => match crate::type_info::find_decl_type_info(q.decls, d) {
            Some(info) => {
                let cand = crate::type_candidates::decl_type_to_candidate(info);
                let mut v: Vec<SalsaTypeCandidateSummary> = Vec::new();
                v.push(cand);
                assert(candidates_view(v@) =~= seq![cand@]);
                Some(v)
            },
            None => None,
        },
    };
    match cands {
        Some(x) => if x.len() > 0 { Some(x) } else { None },
        None => None,
    }
}


/// A candidate narrowed by the narrowings `ns`: its doc types narrowed, unless
/// narrowing leaves none of the doc types it had.
pub open spec fn narrowed_view(c: PointInputs, x: CandidateView, ns: Seq<SalsaTypeNarrowSummary>) -> CandidateView {
    let narrowed = spec_narrow_type_offsets(x.explicit_type_offsets, ns, c.props, c.doc_types.types@, c.lowered.types@);
    CandidateView {
        explicit_type_offsets: if narrowed.len() == 0 && x.explicit_type_offsets.len() > 0 {
            x.explicit_type_offsets
        } else {
            narrowed
        },
        ..x
    }
}

/// A candidate still says something of the value: a doc type, or its value expression.
pub open spec fn keeps_something(x: CandidateView) -> bool {
    x.explicit_type_offsets.len() > 0 || x.initializer_offset.is_some()
}

/// The candidate of the declaration `d`, where it has type information.
pub open spec fn base_cands(c: PointInputs, d: u32) -> Seq<CandidateView> {
    match spec_find_decl_type_info(c.decls, d) {
        Some(i) => seq![decl_candidate_view(i)],
        None => seq![],
    }
}

/// The candidates of local `d` at the point: those of each assignment to it that
/// reaches the point, followed afresh, or where none does its declaration's
/// candidate; where narrowings are active, each narrowed, and those kept that
/// still say something of the value. None where that leaves none.
pub open spec fn point_cands(c: PointInputs, d: u32, ns: Seq<SalsaTypeNarrowSummary>) -> Option<Seq<CandidateView>> {
    let cands = match spec_latest_assignments_at(c.root, c.asg, d, c.p) {
        Some(l) => list_cands(c, l, Set::empty()),
        None => base_cands(c, d),
    };
    let narrowed = if ns.len() > 0 {
        cands.map_values(|x: CandidateView| narrowed_view(c, x, ns)).filter(|x: CandidateView| keeps_something(x))
    } else {
        cands
    };
    if narrowed.len() > 0 {
        Some(narrowed)
    } else {
        None
    }
}

/// The candidates of local `decl_id` at the program point (see `point_cands`).
pub fn find_decl_type_candidates_at_program_point(
    q: &ProgramPointQuery,
    decl_id: u32,
    active_narrows: &Vec<SalsaTypeNarrowSummary>,
) -> (r: Option<Vec<SalsaTypeCandidateSummary>>)
    ensures
        opt_cands_view(r) == point_cands(inputs_of(q), decl_id, active_narrows@),
{
    let ghost c = inputs_of(q);
    let mut cands: Vec<SalsaTypeCandidateSummary> = Vec::new();
    match latest_assignments_at_program_point(q.root, q.assignments, decl_id, q.p) {
        Some(l) => {
            let mut i: usize = 0;
            while i < l.len()
                invariant
                    c == inputs_of(q),
                    i <= l.len(),
                    candidates_view(cands@) == list_cands(c, l@.take(i as int), Set::empty()),
                decreases l.len() - i,
            {
                let ghost t = l@.take(i + 1);
                assert(t.drop_last() =~= l@.take(i as int));
                assert(t.last() == l@[i as int]);
                let mut visited: Vec<u32> = Vec::new();
                assert(visited@.to_set() =~= Set::<u32>::empty());
                let cs = assignment_to_program_point_candidates_with_visited(q, &l[i], &mut visited);
                append_candidates(&mut cands, cs);
                i = i + 1;
            }
            assert(l@.take(i as int) =~= l@);
        },
        None => match crate::type_info::find_decl_type_info(q.decls, decl_id) {
            Some(info) => {
                cands.push(crate::type_candidates::decl_type_to_candidate(info));
                assert(candidates_view(cands@) =~= base_cands(c, decl_id));
            },
            None => {
                assert(candidates_view(cands@) =~= base_cands(c, decl_id));
            },
        },
    }
    if active_narrows.len() > 0 {
        let ghost cv = candidates_view(cands@);
        let ghost mapped = cv.map_values(|x: CandidateView| narrowed_view(c, x, active_narrows@));
        let mut kept: Vec<SalsaTypeCandidateSummary> = Vec::new();
        let mut i: usize = 0;
        while i < cands.len()
            invariant
                c == inputs_of(q),
                cv == candidates_view(cands@),
                mapped == cv.map_values(|x: CandidateView| narrowed_view(c, x, active_narrows@)),
                i <= cands.len(),
                candidates_view(kept@) == mapped.take(i as int).filter(|x: CandidateView| keeps_something(x)),
            decreases cands.len() - i,
        {
            proof { lemma_filter_take_step(mapped, |x: CandidateView| keeps_something(x), i as int); }
            let n = crate::narrow::apply_narrows_to_candidate(
                crate::signature_model::clone_candidate(&cands[i]),
                q.props,
                q.doc_types,
                q.lowered,
                active_narrows,
            );
            assert(n@ == mapped[i as int]);
            if n.explicit_type_offsets.len() > 0 || n.initializer_offset.is_some() {
                let ghost before = kept@;
                kept.push(n);
                assert(candidates_view(kept@) =~= candidates_view(before).push(n@));
            }
            i = i + 1;
        }
        assert(mapped.take(i as int) =~= mapped);
        cands = kept;
    }
    if cands.len() > 0 {
        Some(cands)
    } else {
        None
    }
}


/// The candidates of a name at the point: for a local, its candidates at the
/// point, or where there are none its declaration's candidate; none for a global.
pub open spec fn spec_name_type_at_point(c: PointInputs, name_use: SalsaNameUseSummary, ns: Seq<SalsaTypeNarrowSummary>) -> Seq<CandidateView> {
    match name_use.resolution {
        SalsaNameUseResolutionSummary::LocalDecl(d) => match point_cands(c, d, ns) {
            Some(x) => x,
            None => base_cands(c, d),
        },
        SalsaNameUseResolutionSummary::Global => seq![],
    }
}

/// The inputs of a program-point query, from its arguments.
pub open spec fn point_inputs(
    index: SalsaDeclTypeQueryIndex,
    program_point_offset: u32,
    assignments: SalsaLocalAssignmentQueryIndex,
    root: SalsaBlockSummary,
    property_query_index: SalsaPropertyQueryIndex,
    doc_types: SalsaDocTypeIndexSummary,
    signature_explain_index: SalsaSignatureExplainIndex,
    return_overloads: SalsaCallReturnOverloadIndex,
    decl_tree: SalsaDeclTreeSummary,
    narrow_sites: SalsaNarrowSiteIndexSummary,
    lowered_types: SalsaDocTypeLoweredIndex,
) -> PointInputs {
    PointInputs {
        decls: index,
        asg: assignments.assignments@,
        root,
        tree: decl_tree,
        sites: narrow_sites,
        calls: signature_explain_index,
        overloads: return_overloads.calls@,
        props: property_query_index,
        doc_types,
        lowered: lowered_types,
        p: program_point_offset,
    }
}

/// The type candidates of the name `name_use` at `program_point_offset`, under
/// the narrowings `active_narrows` (see `spec_name_type_at_point`).
pub fn find_name_type_at_program_point(
    index: &SalsaDeclTypeQueryIndex,
    name_use: &SalsaNameUseSummary,
    program_point_offset: u32,
    assignments: &SalsaLocalAssignmentQueryIndex,
    root: &SalsaBlockSummary,
    property_query_index: &SalsaPropertyQueryIndex,
    doc_types: &SalsaDocTypeIndexSummary,
    signature_explain_index: &SalsaSignatureExplainIndex,
    return_overloads: &SalsaCallReturnOverloadIndex,
    decl_tree: &SalsaDeclTreeSummary,
    narrow_sites: &SalsaNarrowSiteIndexSummary,
    lowered_types: &SalsaDocTypeLoweredIndex,
    active_narrows: &Vec<SalsaTypeNarrowSummary>,
) -> (r: SalsaProgramPointTypeInfoSummary)
    ensures
        r@ == spec_name_type_at_point(
            point_inputs(
                *index,
                program_point_offset,
                *assignments,
                *root,
                *property_query_index,
                *doc_types,
                *signature_explain_index,
                *return_overloads,
                *decl_tree,
                *narrow_sites,
                *lowered_types,
            ),
            *name_use,
            active_narrows@,
        ),
{
    let q = ProgramPointQuery {
        decls: index,
        assignments,
        root,
        tree: decl_tree,
        sites: narrow_sites,
        calls: signature_explain_index,
        overloads: return_overloads,
        props: property_query_index,
        doc_types,
        lowered: lowered_types,
        p: program_point_offset,
    };
    let mut candidates: Vec<SalsaTypeCandidateSummary> = Vec::new();
    match name_use.resolution {
        SalsaNameUseResolutionSummary::LocalDecl(d) => {
            match find_decl_type_candidates_at_program_point(&q, d, active_narrows) {
                Some(x) => {
                    candidates = x;
                },
                None => match crate::type_info::find_decl_type_info(index, d) {
                    Some(info) => {
                        candidates.push(crate::type_candidates::decl_type_to_candidate(info));
                        assert(candidates_view(candidates@) =~= base_cands(inputs_of(&q), d));
                    },
                    None => {
                        assert(candidates_view(candidates@) =~= base_cands(inputs_of(&q), d));
                    },
                },
            }
        },
        SalsaNameUseResolutionSummary::Global => {
            assert(candidates_view(candidates@) =~= Seq::<CandidateView>::empty());
        },
    }
    SalsaProgramPointTypeInfoSummary { candidates }
}


/// The narrowings of a name at a point: those of its local, none for a global.
pub open spec fn name_narrows(
    tree: SalsaDeclTreeSummary,
    sites: SalsaNarrowSiteIndexSummary,
    name_use: SalsaNameUseSummary,
    p: u32,
) -> Seq<SalsaTypeNarrowSummary> {
    match name_use.resolution {
        SalsaNameUseResolutionSummary::LocalDecl(d) => spec_active_narrows(tree, sites, d, p),
        SalsaNameUseResolutionSummary::Global => seq![],
    }
}

/// The type candidates of the name a signature returns at `expr_offset`, read at
/// that offset under the narrowings of its local there; none where no name is
/// used there.
pub fn build_return_name_type(
    expr_offset: u32,
    use_sites: &SalsaUseSiteIndexSummary,
    decl_index: &SalsaDeclTypeQueryIndex,
    assignments: &SalsaLocalAssignmentQueryIndex,
    root: &SalsaBlockSummary,
    property_query_index: &SalsaPropertyQueryIndex,
    doc_types: &SalsaDocTypeIndexSummary,
    signature_explain_index: &SalsaSignatureExplainIndex,
    return_overloads: &SalsaCallReturnOverloadIndex,
    decl_tree: &SalsaDeclTreeSummary,
    narrow_sites: &SalsaNarrowSiteIndexSummary,
    lowered_types: &SalsaDocTypeLoweredIndex,
) -> (r: Option<SalsaProgramPointTypeInfoSummary>)
    ensures
        match opt_at(use_sites.names@, use_at_index(use_sites.names@, expr_offset)) {
            None => r.is_none(),
            Some(u) => r.is_some() && r.unwrap()@ == spec_name_type_at_point(
                point_inputs(
                    *decl_index,
                    expr_offset,
                    *assignments,
                    *root,
                    *property_query_index,
                    *doc_types,
                    *signature_explain_index,
                    *return_overloads,
                    *decl_tree,
                    *narrow_sites,
                    *lowered_types,
                ),
                u,
                name_narrows(*decl_tree, *narrow_sites, u, expr_offset),
            ),
        },
{
    let name_use = match find_name_use_at(use_sites, expr_offset) {
        Some(u) => u,
        None => return None,
    };
    let narrows = match name_use.resolution {
        SalsaNameUseResolutionSummary::LocalDecl(d) => collect_active_type_narrows(decl_tree, narrow_sites, d, expr_offset),
        SalsaNameUseResolutionSummary::Global => {
            let v: Vec<SalsaTypeNarrowSummary> = Vec::new();
            assert(v@ =~= Seq::<SalsaTypeNarrowSummary>::empty());
            v
        },
    };
    Some(
        find_name_type_at_program_point(
            decl_index,
            &name_use,
            expr_offset,
            assignments,
            root,
            property_query_index,
            doc_types,
            signature_explain_index,
            return_overloads,
            decl_tree,
            narrow_sites,
            lowered_types,
            &narrows,
        ),
    )
}

} // verus!
