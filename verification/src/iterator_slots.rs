//! The doc types that a `for ... in` loop variable takes from an iterator type:
//! the return at the variable's position of the function type that the iterator
//! type stands for, found through nullable, array, variadic, unary, generic,
//! binary, conditional, tuple and union types.
//!
//! The walk marks each node it enters as visited and does not enter a node again;
//! the operands it walks in turn share the visited nodes.
use vstd::prelude::*;

use crate::doc_type::{
    SalsaDocTypeIndexSummary, SalsaDocTypeKindSummary, SalsaDocTypeLoweredIndex, SalsaDocTypeLoweredKind,
    SalsaDocTypeLoweredNode, SalsaDocTypeNodeSummary, find_resolved_doc_type_by_key_from_parts,
};
use crate::lookup::{find_first_index, first_with_key, lemma_first_index_with_key};
use crate::narrow::{
    extend_keys, holds_key, keep_vec, lemma_unvisited_grow, lemma_unvisited_insert, mark_visited, resolved_lowered,
    unvisited,
};
use crate::signature_model::SalsaDocTypeRef;

verus! {

pub open spec fn opt_keys(t: Option<u32>) -> Seq<u32> {
    match t {
        Some(k) => seq![k],
        None => seq![],
    }
}

/// What the return at `slot` of a function type gives, or `None` when the kind
/// is not a function type.
pub open spec fn doc_function_slot(kind: SalsaDocTypeKindSummary, slot: usize) -> Option<Seq<u32>> {
    match kind {
        SalsaDocTypeKindSummary::Function { returns: rets, .. } => Some(
            if slot < rets@.len() {
                opt_keys(rets@[slot as int].type_offset)
            } else {
                seq![]
            },
        ),
        _ => None,
    }
}

/// The operands of a doc type that the walk goes into.
pub open spec fn doc_slot_children(kind: SalsaDocTypeKindSummary) -> Seq<u32> {
    match kind {
        SalsaDocTypeKindSummary::Nullable { inner_type_offset } => opt_keys(inner_type_offset),
        SalsaDocTypeKindSummary::Array { item_type_offset } => opt_keys(item_type_offset),
        SalsaDocTypeKindSummary::Variadic { item_type_offset } => opt_keys(item_type_offset),
        SalsaDocTypeKindSummary::Unary { inner_type_offset, .. } => opt_keys(inner_type_offset),
        SalsaDocTypeKindSummary::Generic { base_type_offset, .. } => opt_keys(base_type_offset),
        SalsaDocTypeKindSummary::Binary { left_type_offset, right_type_offset, .. } => opt_keys(left_type_offset)
            + opt_keys(right_type_offset),
        SalsaDocTypeKindSummary::Conditional { true_type_offset, false_type_offset, .. } => opt_keys(true_type_offset)
            + opt_keys(false_type_offset),
        SalsaDocTypeKindSummary::Tuple { item_type_offsets } => item_type_offsets@,
        SalsaDocTypeKindSummary::MultiLineUnion { item_type_offsets } => item_type_offsets@,
        _ => seq![],
    }
}

/// What the return at `slot` of a lowered function type gives, or `None` when
/// the kind is not a function type.
pub open spec fn lowered_function_slot(kind: SalsaDocTypeLoweredKind, slot: usize) -> Option<Seq<u32>> {
    match kind {
        SalsaDocTypeLoweredKind::Function { returns: rets, .. } => Some(
            if slot < rets@.len() {
                match rets@[slot as int].doc_type {
                    SalsaDocTypeRef::Node(o) => seq![o],
                    SalsaDocTypeRef::Incomplete => seq![],
                }
            } else {
                seq![]
            },
        ),
        _ => None,
    }
}

/// The operands of a lowered doc type that the walk goes into.
pub open spec fn lowered_slot_children(kind: SalsaDocTypeLoweredKind) -> Seq<SalsaDocTypeRef> {
    match kind {
        SalsaDocTypeLoweredKind::Nullable { inner_type } => seq![inner_type],
        SalsaDocTypeLoweredKind::Array { item_type } => seq![item_type],
        SalsaDocTypeLoweredKind::Variadic { item_type } => seq![item_type],
        SalsaDocTypeLoweredKind::Unary { inner_type, .. } => seq![inner_type],
        SalsaDocTypeLoweredKind::Generic { base_type, .. } => seq![base_type],
        SalsaDocTypeLoweredKind::Union { item_types } => item_types@,
        SalsaDocTypeLoweredKind::Intersection { item_types } => item_types@,
        SalsaDocTypeLoweredKind::Tuple { item_types } => item_types@,
        SalsaDocTypeLoweredKind::MultiLineUnion { item_types } => item_types@,
        SalsaDocTypeLoweredKind::Conditional { true_type, false_type, .. } => seq![true_type, false_type],
        _ => seq![],
    }
}

/// What the walk finds for slot `slot` from the node under `k`, and the nodes
/// visited after it. It first reads the node as the doc types list it: a function
/// type gives its return at the slot; other types what their operands give. When
/// that gives nothing, it reads the node's lowered form the same way.
pub open spec fn spec_slot_offset(
    nodes: Seq<SalsaDocTypeNodeSummary>,
    lowered: Seq<SalsaDocTypeLoweredNode>,
    slot: usize,
    k: u32,
    visited: Set<u32>,
) -> (Seq<u32>, Set<u32>)
    decreases unvisited(nodes, visited), 0nat,
{
    if visited.contains(k) {
        (seq![], visited)
    } else {
        let v1 = visited.insert(k);
        let first: (Seq<u32>, Set<u32>) = match first_with_key(nodes, k) {
            None => (seq![], v1),
            Some(n) => match doc_function_slot(n.kind, slot) {
                Some(s) => (s, v1),
                None => {
                    proof { lemma_unvisited_insert(nodes, visited, k); }
                    spec_slot_keys(nodes, lowered, slot, doc_slot_children(n.kind), v1)
                },
            },
        };
        if first.0.len() > 0 {
            first
        } else {
            let v2 = first.1.union(v1);
            match resolved_lowered(nodes, lowered, k) {
                None => (seq![], v2),
                Some(q) => match lowered_function_slot(q.kind, slot) {
                    Some(s) => (s, v2),
                    None => {
                        proof {
                            lemma_unvisited_insert(nodes, visited, k);
                            lemma_unvisited_grow(nodes, v1, v2);
                        }
                        spec_slot_refs(nodes, lowered, slot, lowered_slot_children(q.kind), v2)
                    },
                },
            }
        }
    }
}

/// What the walk finds from each node in turn, the visits of each carried on.
pub open spec fn spec_slot_keys(
    nodes: Seq<SalsaDocTypeNodeSummary>,
    lowered: Seq<SalsaDocTypeLoweredNode>,
    slot: usize,
    keys: Seq<u32>,
    visited: Set<u32>,
) -> (Seq<u32>, Set<u32>)
    decreases unvisited(nodes, visited), keys.len(),
{
    if keys.len() == 0 {
        (seq![], visited)
    } else {
        let first = spec_slot_offset(nodes, lowered, slot, keys[0], visited);
        let after = first.1.union(visited);
        proof { lemma_unvisited_grow(nodes, visited, after); }
        let rest = spec_slot_keys(nodes, lowered, slot, keys.drop_first(), after);
        (first.0 + rest.0, rest.1)
    }
}

/// What the walk finds from each reference in turn (nothing from an incomplete
/// one), the visits of each carried on.
pub open spec fn spec_slot_refs(
    nodes: Seq<SalsaDocTypeNodeSummary>,
    lowered: Seq<SalsaDocTypeLoweredNode>,
    slot: usize,
    refs: Seq<SalsaDocTypeRef>,
    visited: Set<u32>,
) -> (Seq<u32>, Set<u32>)
    decreases unvisited(nodes, visited), refs.len(),
{
    if refs.len() == 0 {
        (seq![], visited)
    } else {
        let first = match refs[0] {
            SalsaDocTypeRef::Node(k) => spec_slot_offset(nodes, lowered, slot, k, visited),
            SalsaDocTypeRef::Incomplete => (seq![], visited),
        };
        let after = first.1.union(visited);
        proof { lemma_unvisited_grow(nodes, visited, after); }
        let rest = spec_slot_refs(nodes, lowered, slot, refs.drop_first(), after);
        (first.0 + rest.0, rest.1)
    }
}

/// A walk only adds to the visited nodes.
pub proof fn lemma_slot_offset_grows(
    nodes: Seq<SalsaDocTypeNodeSummary>,
    lowered: Seq<SalsaDocTypeLoweredNode>,
    slot: usize,
    k: u32,
    visited: Set<u32>,
)
    ensures
        visited.subset_of(spec_slot_offset(nodes, lowered, slot, k, visited).1),
    decreases unvisited(nodes, visited), 0nat,
{
    if !visited.contains(k) {
        let v1 = visited.insert(k);
        let first: (Seq<u32>, Set<u32>) = match first_with_key(nodes, k) {
            None => (seq![], v1),
            Some(n) => match doc_function_slot(n.kind, slot) {
                Some(s) => (s, v1),
                None => {
                    lemma_unvisited_insert(nodes, visited, k);
                    lemma_slot_keys_grow(nodes, lowered, slot, doc_slot_children(n.kind), v1);
                    spec_slot_keys(nodes, lowered, slot, doc_slot_children(n.kind), v1)
                },
            },
        };
        if first.0.len() == 0 {
            let v2 = first.1.union(v1);
            match resolved_lowered(nodes, lowered, k) {
                None => {},
                Some(q) => match lowered_function_slot(q.kind, slot) {
                    Some(s) => {},
                    None => {
                        lemma_unvisited_insert(nodes, visited, k);
                        lemma_unvisited_grow(nodes, v1, v2);
                        lemma_slot_refs_grow(nodes, lowered, slot, lowered_slot_children(q.kind), v2);
                    },
                },
            }
        }
    }
}

pub proof fn lemma_slot_keys_grow(
    nodes: Seq<SalsaDocTypeNodeSummary>,
    lowered: Seq<SalsaDocTypeLoweredNode>,
    slot: usize,
    keys: Seq<u32>,
    visited: Set<u32>,
)
    ensures
        visited.subset_of(spec_slot_keys(nodes, lowered, slot, keys, visited).1),
    decreases unvisited(nodes, visited), keys.len(),
{
    if keys.len() > 0 {
        let first = spec_slot_offset(nodes, lowered, slot, keys[0], visited);
        let after = first.1.union(visited);
        lemma_unvisited_grow(nodes, visited, after);
        lemma_slot_keys_grow(nodes, lowered, slot, keys.drop_first(), after);
    }
}

pub proof fn lemma_slot_refs_grow(
    nodes: Seq<SalsaDocTypeNodeSummary>,
    lowered: Seq<SalsaDocTypeLoweredNode>,
    slot: usize,
    refs: Seq<SalsaDocTypeRef>,
    visited: Set<u32>,
)
    ensures
        visited.subset_of(spec_slot_refs(nodes, lowered, slot, refs, visited).1),
    decreases unvisited(nodes, visited), refs.len(),
{
    if refs.len() > 0 {
        let first = match refs[0] {
            SalsaDocTypeRef::Node(k) => spec_slot_offset(nodes, lowered, slot, k, visited),
            SalsaDocTypeRef::Incomplete => (seq![], visited),
        };
        let after = first.1.union(visited);
        lemma_unvisited_grow(nodes, visited, after);
        lemma_slot_refs_grow(nodes, lowered, slot, refs.drop_first(), after);
    }
}

fn opt_key_vec(t: Option<u32>) -> (r: Vec<u32>)
    ensures
        r@ == opt_keys(t),
{
    match t {
        Some(k) => keep_vec(true, k),
        None => keep_vec(false, 0),
    }
}

fn two_keys(a: Option<u32>, b: Option<u32>) -> (r: Vec<u32>)
    ensures
        r@ == opt_keys(a) + opt_keys(b),
{
    let mut r = opt_key_vec(a);
    let tail = opt_key_vec(b);
    extend_keys(&mut r, &tail);
    r
}

/// The operands of a doc type that the walk goes into.
fn doc_children(kind: &SalsaDocTypeKindSummary) -> (r: Vec<u32>)
    ensures
        r@ == doc_slot_children(*kind),
{
    match kind {
        SalsaDocTypeKindSummary::Nullable { inner_type_offset } => opt_key_vec(*inner_type_offset),
        SalsaDocTypeKindSummary::Array { item_type_offset } => opt_key_vec(*item_type_offset),
        SalsaDocTypeKindSummary::Variadic { item_type_offset } => opt_key_vec(*item_type_offset),
        SalsaDocTypeKindSummary::Unary { inner_type_offset, .. } => opt_key_vec(*inner_type_offset),
        SalsaDocTypeKindSummary::Generic { base_type_offset, .. } => opt_key_vec(*base_type_offset),
        SalsaDocTypeKindSummary::Binary { left_type_offset, right_type_offset, .. } => two_keys(
            *left_type_offset,
            *right_type_offset,
        ),
        SalsaDocTypeKindSummary::Conditional { true_type_offset, false_type_offset, .. } => two_keys(
            *true_type_offset,
            *false_type_offset,
        ),
        SalsaDocTypeKindSummary::Tuple { item_type_offsets } => crate::signature_model::clone_u32_vec(item_type_offsets),
        SalsaDocTypeKindSummary::MultiLineUnion { item_type_offsets } => crate::signature_model::clone_u32_vec(
            item_type_offsets,
        ),
        _ => keep_vec(false, 0),
    }
}

fn one_ref(r: SalsaDocTypeRef) -> (v: Vec<SalsaDocTypeRef>)
    ensures
        v@ == seq![r],
{
    let mut v: Vec<SalsaDocTypeRef> = Vec::new();
    v.push(r);
    assert(v@ =~= seq![r]);
    v
}

fn clone_refs(s: &Vec<SalsaDocTypeRef>) -> (r: Vec<SalsaDocTypeRef>)
    ensures
        r@ == s@,
{
    let mut r: Vec<SalsaDocTypeRef> = Vec::new();
    let mut i: usize = 0;
    while i < s.len()
        invariant
            i <= s@.len(),
            r@ == s@.take(i as int),
        decreases s@.len() - i,
    {
        r.push(s[i]);
        assert(s@.take(i + 1) =~= s@.take(i as int).push(s@[i as int]));
        i = i + 1;
    }
    assert(s@.take(s@.len() as int) =~= s@);
    r
}

/// The operands of a lowered doc type that the walk goes into.
fn lowered_children(kind: &SalsaDocTypeLoweredKind) -> (r: Vec<SalsaDocTypeRef>)
    ensures
        r@ == lowered_slot_children(*kind),
{
    match kind {
        SalsaDocTypeLoweredKind::Nullable { inner_type } => one_ref(*inner_type),
        SalsaDocTypeLoweredKind::Array { item_type } => one_ref(*item_type),
        SalsaDocTypeLoweredKind::Variadic { item_type } => one_ref(*item_type),
        SalsaDocTypeLoweredKind::Unary { inner_type, .. } => one_ref(*inner_type),
        SalsaDocTypeLoweredKind::Generic { base_type, .. } => one_ref(*base_type),
        SalsaDocTypeLoweredKind::Union { item_types } => clone_refs(item_types),
        SalsaDocTypeLoweredKind::Intersection { item_types } => clone_refs(item_types),
        SalsaDocTypeLoweredKind::Tuple { item_types } => clone_refs(item_types),
        SalsaDocTypeLoweredKind::MultiLineUnion { item_types } => clone_refs(item_types),
        SalsaDocTypeLoweredKind::Conditional { true_type, false_type, .. } => {
            let mut v = one_ref(*true_type);
            v.push(*false_type);
            assert(v@ =~= seq![*true_type, *false_type]);
            v
        },
        _ => Vec::new(),
    }
}

/// The doc types that slot `slot_index` of an iterator takes from the node under
/// `type_offset`.
pub fn collect_iterator_slot_offsets_from_type_offset(
    type_offset: u32,
    slot_index: usize,
    doc_types: &SalsaDocTypeIndexSummary,
    lowered_types: &SalsaDocTypeLoweredIndex,
    visited: &mut Vec<u32>,
) -> (r: Vec<u32>)
    ensures
        (r@, final(visited)@.to_set()) == spec_slot_offset(
            doc_types.types@,
            lowered_types.types@,
            slot_index,
            type_offset,
            old(visited)@.to_set(),
        ),
    decreases unvisited(doc_types.types@, old(visited)@.to_set()), 0nat,
{
    let ghost d = doc_types.types@;
    let ghost l = lowered_types.types@;
    let ghost v0 = visited@.to_set();
    if holds_key(visited, type_offset) {
        return keep_vec(false, 0);
    }
    mark_visited(visited, type_offset);
    let ghost v1 = v0.insert(type_offset);
    proof { lemma_first_index_with_key(d, type_offset); }
    let first: Vec<u32> = match find_first_index(&doc_types.types, type_offset) {
        None => keep_vec(false, 0),
        Some(i) => {
            let n = &doc_types.types[i];
            assert(first_with_key(d, type_offset) == Some(*n));
            match &n.kind {
                SalsaDocTypeKindSummary::Function { returns: rets, .. } => {
                    if slot_index < rets.len() {
                        opt_key_vec(rets[slot_index].type_offset)
                    } else {
                        keep_vec(false, 0)
                    }
                },
                _ => {
                    proof { lemma_unvisited_insert(d, v0, type_offset); }
                    let children = doc_children(&n.kind);
                    collect_iterator_slot_offsets_from_type_offsets(&children, slot_index, doc_types, lowered_types, visited)
                },
            }
        },
    };
    if first.len() > 0 {
        return first;
    }
    let ghost v2 = visited@.to_set();
    proof {
        if first_with_key(d, type_offset).is_some() {
            let n = first_with_key(d, type_offset)->0;
            if doc_function_slot(n.kind, slot_index).is_none() {
                lemma_slot_keys_grow(d, l, slot_index, doc_slot_children(n.kind), v1);
            }
        }
        assert(v2.union(v1) =~= v2);
    }
    let found = find_resolved_doc_type_by_key_from_parts(doc_types, lowered_types, type_offset);
    let q = match found {
        None => {
            return keep_vec(false, 0);
        },
        Some((_, q)) => q,
    };
    assert(resolved_lowered(d, l, type_offset) == Some(*q));
    match &q.kind {
        SalsaDocTypeLoweredKind::Function { returns: rets, .. } => {
            if slot_index < rets.len() {
                match rets[slot_index].doc_type {
                    SalsaDocTypeRef::Node(o) => keep_vec(true, o),
                    SalsaDocTypeRef::Incomplete => keep_vec(false, 0),
                }
            } else {
                keep_vec(false, 0)
            }
        },
        _ => {
            proof {
                lemma_unvisited_insert(d, v0, type_offset);
                lemma_unvisited_grow(d, v1, v2);
            }
            let children = lowered_children(&q.kind);
            collect_iterator_slot_offsets_from_type_refs(&children, slot_index, doc_types, lowered_types, visited)
        },
    }
}

/// The doc types that slot `slot_index` takes from a reference: nothing from an
/// incomplete one.
pub fn collect_iterator_slot_offsets_from_type_ref(
    type_ref: SalsaDocTypeRef,
    slot_index: usize,
    doc_types: &SalsaDocTypeIndexSummary,
    lowered_types: &SalsaDocTypeLoweredIndex,
    visited: &mut Vec<u32>,
) -> (r: Vec<u32>)
    ensures
        (r@, final(visited)@.to_set()) == match type_ref {
            SalsaDocTypeRef::Node(k) => spec_slot_offset(
                doc_types.types@,
                lowered_types.types@,
                slot_index,
                k,
                old(visited)@.to_set(),
            ),
            SalsaDocTypeRef::Incomplete => (seq![], old(visited)@.to_set()),
        },
{
    match type_ref {
        SalsaDocTypeRef::Node(k) => collect_iterator_slot_offsets_from_type_offset(
            k,
            slot_index,
            doc_types,
            lowered_types,
            visited,
        ),
        SalsaDocTypeRef::Incomplete => keep_vec(false, 0),
    }
}

fn collect_iterator_slot_offsets_from_type_offsets(
    keys: &Vec<u32>,
    slot_index: usize,
    doc_types: &SalsaDocTypeIndexSummary,
    lowered_types: &SalsaDocTypeLoweredIndex,
    visited: &mut Vec<u32>,
) -> (r: Vec<u32>)
    ensures
        (r@, final(visited)@.to_set()) == spec_slot_keys(
            doc_types.types@,
            lowered_types.types@,
            slot_index,
            keys@,
            old(visited)@.to_set(),
        ),
    decreases unvisited(doc_types.types@, old(visited)@.to_set()), keys@.len(),
{
    let ghost d = doc_types.types@;
    let ghost l = lowered_types.types@;
    let ghost v0 = visited@.to_set();
    let ghost whole = spec_slot_keys(d, l, slot_index, keys@, v0);
    let mut r: Vec<u32> = Vec::new();
    let mut i: usize = 0;
    assert(keys@.skip(0) =~= keys@);
    assert(r@ + whole.0 =~= whole.0);
    while i < keys.len()
        invariant
            i <= keys@.len(),
            d == doc_types.types@,
            l == lowered_types.types@,
            v0 == old(visited)@.to_set(),
            v0.subset_of(visited@.to_set()),
            whole == spec_slot_keys(d, l, slot_index, keys@, v0),
            r@ + spec_slot_keys(d, l, slot_index, keys@.skip(i as int), visited@.to_set()).0 == whole.0,
            spec_slot_keys(d, l, slot_index, keys@.skip(i as int), visited@.to_set()).1 == whole.1,
        decreases keys@.len() - i,
    {
        let ghost cur = visited@.to_set();
        let ghost rest = keys@.skip(i as int);
        assert(rest.drop_first() =~= keys@.skip(i + 1));
        assert(rest[0] == keys@[i as int]);
        proof { lemma_unvisited_grow(d, v0, cur); }
        let part = collect_iterator_slot_offsets_from_type_offset(keys[i], slot_index, doc_types, lowered_types, visited);
        proof {
            lemma_slot_offset_grows(d, l, slot_index, rest[0], cur);
            assert(visited@.to_set().union(cur) =~= visited@.to_set());
        }
        extend_keys(&mut r, &part);
        assert(r@ + spec_slot_keys(d, l, slot_index, keys@.skip(i + 1), visited@.to_set()).0 =~= whole.0);
        i = i + 1;
    }
    assert(keys@.skip(i as int) =~= Seq::<u32>::empty());
    assert(r@ =~= whole.0);
    r
}

fn collect_iterator_slot_offsets_from_type_refs(
    refs: &Vec<SalsaDocTypeRef>,
    slot_index: usize,
    doc_types: &SalsaDocTypeIndexSummary,
    lowered_types: &SalsaDocTypeLoweredIndex,
    visited: &mut Vec<u32>,
) -> (r: Vec<u32>)
    ensures
        (r@, final(visited)@.to_set()) == spec_slot_refs(
            doc_types.types@,
            lowered_types.types@,
            slot_index,
            refs@,
            old(visited)@.to_set(),
        ),
    decreases unvisited(doc_types.types@, old(visited)@.to_set()), refs@.len(),
{
    let ghost d = doc_types.types@;
    let ghost l = lowered_types.types@;
    let ghost v0 = visited@.to_set();
    let ghost whole = spec_slot_refs(d, l, slot_index, refs@, v0);
    let mut r: Vec<u32> = Vec::new();
    let mut i: usize = 0;
    assert(refs@.skip(0) =~= refs@);
    assert(r@ + whole.0 =~= whole.0);
    while i < refs.len()
        invariant
            i <= refs@.len(),
            d == doc_types.types@,
            l == lowered_types.types@,
            v0 == old(visited)@.to_set(),
            v0.subset_of(visited@.to_set()),
            whole == spec_slot_refs(d, l, slot_index, refs@, v0),
            r@ + spec_slot_refs(d, l, slot_index, refs@.skip(i as int), visited@.to_set()).0 == whole.0,
            spec_slot_refs(d, l, slot_index, refs@.skip(i as int), visited@.to_set()).1 == whole.1,
        decreases refs@.len() - i,
    {
        let ghost cur = visited@.to_set();
        let ghost rest = refs@.skip(i as int);
        assert(rest.drop_first() =~= refs@.skip(i + 1));
        assert(rest[0] == refs@[i as int]);
        proof { lemma_unvisited_grow(d, v0, cur); }
        let part = match refs[i] {
            SalsaDocTypeRef::Node(k) => collect_iterator_slot_offsets_from_type_offset(
                k,
                slot_index,
                doc_types,
                lowered_types,
                visited,
            ),
            SalsaDocTypeRef::Incomplete => keep_vec(false, 0),
        };
        proof {
            if let SalsaDocTypeRef::Node(k) = rest[0] {
                lemma_slot_offset_grows(d, l, slot_index, k, cur);
            }
            assert(visited@.to_set().union(cur) =~= visited@.to_set());
        }
        extend_keys(&mut r, &part);
        assert(r@ + spec_slot_refs(d, l, slot_index, refs@.skip(i + 1), visited@.to_set()).0 =~= whole.0);
        i = i + 1;
    }
    assert(refs@.skip(i as int) =~= Seq::<SalsaDocTypeRef>::empty());
    assert(r@ =~= whole.0);
    r
}

} // verus!
