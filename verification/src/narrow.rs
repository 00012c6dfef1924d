//! Narrowing the doc types of a value by what a condition shows of it: that it
//! is truthy or falsey, equals a literal, is or is not of a named type, or has a
//! field equal to a literal.
//!
//! Each narrowing walks from a doc type node through the unions it holds and
//! marks each node it enters as visited; a node that was visited already is not
//! entered again, so a walk through a cycle of unions ends. The nodes that one
//! walk visits are shared by the operands that it walks in turn.
use vstd::prelude::*;

use crate::doc_type::{
    SalsaDocTypeBinaryOperatorSummary, SalsaDocTypeIndexSummary, SalsaDocTypeKindSummary, SalsaDocTypeLoweredIndex,
    SalsaDocTypeLoweredKind, SalsaDocTypeLoweredNode, SalsaDocTypeNodeSummary, find_resolved_doc_type_by_key_from_parts,
};
use crate::lookup::{find_first_index, first_with_key, first_index_with_key, lemma_first_index_with_key};
use crate::property::{
    PropertyKeyView, PropertyView, SalsaPropertyKeySummary, SalsaPropertyQueryIndex, collect_properties_for_type_and_key_in_index,
    owned_by_type, props_view, spec_owner_key_properties,
};
use crate::signature_model::{CandidateView, SalsaDocTypeRef};
use crate::type_info::SalsaTypeCandidateSummary;
use crate::solver_shells::first_occurrences;

verus! {

/// The keys of the doc type nodes.
pub open spec fn doc_keys(nodes: Seq<SalsaDocTypeNodeSummary>) -> Set<u32> {
    nodes.map_values(|d: SalsaDocTypeNodeSummary| d.key).to_set()
}

/// How many doc type nodes a walk has not visited yet.
pub open spec fn unvisited(nodes: Seq<SalsaDocTypeNodeSummary>, visited: Set<u32>) -> nat {
    doc_keys(nodes).difference(visited).len()
}

pub proof fn lemma_unvisited_grow(nodes: Seq<SalsaDocTypeNodeSummary>, v: Set<u32>, w: Set<u32>)
    requires
        v.subset_of(w),
    ensures
        unvisited(nodes, w) <= unvisited(nodes, v),
{
    vstd::seq_lib::seq_to_set_is_finite(nodes.map_values(|d: SalsaDocTypeNodeSummary| d.key));
    vstd::set_lib::lemma_len_subset(doc_keys(nodes).difference(v), doc_keys(nodes));
    vstd::set_lib::lemma_len_subset(doc_keys(nodes).difference(w), doc_keys(nodes).difference(v));
}

pub proof fn lemma_unvisited_insert(nodes: Seq<SalsaDocTypeNodeSummary>, v: Set<u32>, k: u32)
    requires
        first_with_key(nodes, k).is_some(),
        !v.contains(k),
    ensures
        unvisited(nodes, v.insert(k)) < unvisited(nodes, v),
{
    lemma_first_index_with_key(nodes, k);
    let i = first_index_with_key(nodes, k);
    let keys = nodes.map_values(|d: SalsaDocTypeNodeSummary| d.key);
    assert(keys[i] == k);
    assert(keys.to_set().contains(k));
    vstd::seq_lib::seq_to_set_is_finite(keys);
    let before = doc_keys(nodes).difference(v);
    vstd::set_lib::lemma_len_subset(before, doc_keys(nodes));
    assert(before.contains(k));
    assert(doc_keys(nodes).difference(v.insert(k)) =~= before.remove(k));
    vstd::set::axiom_set_remove_len(before, k);
}

/// The lowered form of the node under `key`, when the doc types list such a node
/// and the lowered types one under the same key (the first of each).
pub open spec fn resolved_lowered(
    nodes: Seq<SalsaDocTypeNodeSummary>,
    lowered: Seq<SalsaDocTypeLoweredNode>,
    key: u32,
) -> Option<SalsaDocTypeLoweredNode> {
    if first_with_key(nodes, key).is_some() {
        first_with_key(lowered, key)
    } else {
        None
    }
}

/// A narrowing that goes by the lowered doc types.
pub enum LoweredNarrowSpec {
    /// Keep what may be truthy: drop `nil` and `false`.
    Truthy,
    /// Keep what may be falsey: `nil`, `false` and nullable types.
    Falsey,
    /// Keep the types with this name.
    TypeGuard(Seq<char>),
    /// Drop the types with this name.
    ExcludeTypeGuard(Seq<char>),
    /// Keep the named types whose field `member` is documented as a literal equal
    /// (or, when not `positive`, unequal) to this text, by their properties.
    FieldLiteral(Seq<char>, Seq<char>, bool, SalsaPropertyQueryIndex),
}

/// Whether a narrowing keeps a node that it cannot look into.
pub open spec fn keeps_unresolved(mode: LoweredNarrowSpec) -> bool {
    !(mode is Falsey)
}

/// Whether a narrowing keeps a node of a kind that it does not treat.
pub open spec fn keeps_other(mode: LoweredNarrowSpec) -> bool {
    mode is Truthy || mode is ExcludeTypeGuard || mode is FieldLiteral
}

pub open spec fn keep_if(b: bool, k: u32) -> Seq<u32> {
    if b { seq![k] } else { seq![] }
}

/// The keys of the node references, skipping incomplete ones.
pub open spec fn ref_keys(refs: Seq<SalsaDocTypeRef>) -> Seq<u32>
    decreases refs.len(),
{
    if refs.len() == 0 {
        seq![]
    } else {
        let r = ref_keys(refs.drop_last());
        match refs.last() {
            SalsaDocTypeRef::Node(k) => r.push(k),
            SalsaDocTypeRef::Incomplete => r,
        }
    }
}

/// What a narrowing by the lowered doc types keeps of the node under `k`, and the
/// nodes visited after it, given those visited before.
pub open spec fn spec_narrow_lowered(
    mode: LoweredNarrowSpec,
    nodes: Seq<SalsaDocTypeNodeSummary>,
    lowered: Seq<SalsaDocTypeLoweredNode>,
    k: u32,
    visited: Set<u32>,
) -> (Seq<u32>, Set<u32>)
    decreases unvisited(nodes, visited), 0nat,
{
    if visited.contains(k) {
        (keep_if(mode is FieldLiteral, k), visited)
    } else {
        let v1 = visited.insert(k);
        match resolved_lowered(nodes, lowered, k) {
            None => (keep_if(keeps_unresolved(mode), k), v1),
            Some(q) => match q.kind {
                SalsaDocTypeLoweredKind::Name { name } => (
                    match mode {
                        LoweredNarrowSpec::Truthy => keep_if(name@ != "nil"@, k),
                        LoweredNarrowSpec::Falsey => keep_if(name@ == "nil"@, k),
                        LoweredNarrowSpec::TypeGuard(t) => keep_if(name@ == t, k),
                        LoweredNarrowSpec::ExcludeTypeGuard(t) => keep_if(name@ != t, k),
                        LoweredNarrowSpec::FieldLiteral(member, text, positive, index) => spec_named_by_discriminant(
                            nodes,
                            index,
                            k,
                            name@,
                            member,
                            text,
                            positive,
                        ),
                    },
                    v1,
                ),
                SalsaDocTypeLoweredKind::Literal { text } => (
                    match mode {
                        LoweredNarrowSpec::Truthy => keep_if(!(text@ == "false"@ || text@ == "nil"@), k),
                        LoweredNarrowSpec::Falsey => keep_if(text@ == "false"@ || text@ == "nil"@, k),
                        _ => keep_if(keeps_other(mode), k),
                    },
                    v1,
                ),
                SalsaDocTypeLoweredKind::Nullable { inner_type } => match mode {
                    LoweredNarrowSpec::Truthy => (ref_keys(seq![inner_type]), v1),
                    LoweredNarrowSpec::Falsey => (seq![k], v1),
                    LoweredNarrowSpec::TypeGuard(_) => {
                        proof { lemma_unvisited_insert(nodes, visited, k); }
                        spec_narrow_lowered_refs(mode, nodes, lowered, k, seq![inner_type], v1)
                    },
                    LoweredNarrowSpec::ExcludeTypeGuard(_) => {
                        proof { lemma_unvisited_insert(nodes, visited, k); }
                        let inner = spec_narrow_lowered_refs(mode, nodes, lowered, k, seq![inner_type], v1);
                        (first_occurrences(seq![k] + inner.0), inner.1)
                    },
                    LoweredNarrowSpec::FieldLiteral(_, _, _, _) => (seq![k], v1),
                },
                SalsaDocTypeLoweredKind::Union { item_types } => {
                    proof { lemma_unvisited_insert(nodes, visited, k); }
                    spec_narrow_lowered_refs(mode, nodes, lowered, k, item_types@, v1)
                },
                SalsaDocTypeLoweredKind::MultiLineUnion { item_types } => {
                    proof { lemma_unvisited_insert(nodes, visited, k); }
                    spec_narrow_lowered_refs(mode, nodes, lowered, k, item_types@, v1)
                },
                _ => (keep_if(keeps_other(mode), k), v1),
            },
        }
    }
}

/// What a narrowing by the lowered doc types keeps of each reference of the node
/// `outer` in turn, the visits of each carried to the next. Of an incomplete
/// reference it keeps nothing, but a field-literal narrowing keeps `outer`.
pub open spec fn spec_narrow_lowered_refs(
    mode: LoweredNarrowSpec,
    nodes: Seq<SalsaDocTypeNodeSummary>,
    lowered: Seq<SalsaDocTypeLoweredNode>,
    outer: u32,
    refs: Seq<SalsaDocTypeRef>,
    visited: Set<u32>,
) -> (Seq<u32>, Set<u32>)
    decreases unvisited(nodes, visited), refs.len(),
{
    if refs.len() == 0 {
        (seq![], visited)
    } else {
        let first = match refs[0] {
            SalsaDocTypeRef::Node(k) => spec_narrow_lowered(mode, nodes, lowered, k, visited),
            SalsaDocTypeRef::Incomplete => (keep_if(mode is FieldLiteral, outer), visited),
        };
        let after = first.1.union(visited);
        proof { lemma_unvisited_grow(nodes, visited, after); }
        let rest = spec_narrow_lowered_refs(mode, nodes, lowered, outer, refs.drop_first(), after);
        (first.0 + rest.0, rest.1)
    }
}

/// A narrowing that goes by the lowered doc types.
pub enum LoweredNarrow {
    Truthy,
    Falsey,
    TypeGuard(String),
    ExcludeTypeGuard(String),
    FieldLiteral(String, String, bool),
}

pub open spec fn lowered_narrow_spec(mode: &LoweredNarrow, index: SalsaPropertyQueryIndex) -> LoweredNarrowSpec {
    match mode {
        LoweredNarrow::Truthy => LoweredNarrowSpec::Truthy,
        LoweredNarrow::Falsey => LoweredNarrowSpec::Falsey,
        LoweredNarrow::TypeGuard(t) => LoweredNarrowSpec::TypeGuard(t@),
        LoweredNarrow::ExcludeTypeGuard(t) => LoweredNarrowSpec::ExcludeTypeGuard(t@),
        LoweredNarrow::FieldLiteral(m, t, p) => LoweredNarrowSpec::FieldLiteral(m@, t@, *p, index),
    }
}

pub(crate) fn holds_key(visited: &Vec<u32>, k: u32) -> (r: bool)
    ensures
        r == visited@.to_set().contains(k),
{
    let mut i: usize = 0;
    while i < visited.len()
        invariant
            i <= visited@.len(),
            forall|j: int| 0 <= j < i ==> visited@[j] != k,
        decreases visited@.len() - i,
    {
        if visited[i] == k {
            assert(visited@.contains(k)) by { assert(visited@[i as int] == k); }
            return true;
        }
        i = i + 1;
    }
    false
}

pub(crate) fn keep_vec(b: bool, k: u32) -> (r: Vec<u32>)
    ensures
        r@ == keep_if(b, k),
{
    if b {
        let mut r: Vec<u32> = Vec::new();
        r.push(k);
        assert(r@ =~= seq![k]);
        r
    } else {
        let r: Vec<u32> = Vec::new();
        assert(r@ =~= Seq::<u32>::empty());
        r
    }
}

fn is_nil_or_false(text: &String) -> (r: bool)
    ensures
        r == (text@ == "false"@ || text@ == "nil"@),
{
    *text == "false".to_owned() || *text == "nil".to_owned()
}

/// Keeps each element at its first occurrence, in order.
pub fn dedupe_offsets(offsets: Vec<u32>) -> (r: Vec<u32>)
    ensures
        r@ == first_occurrences(offsets@),
{
    let mut r: Vec<u32> = Vec::new();
    let mut i: usize = 0;
    while i < offsets.len()
        invariant
            i <= offsets@.len(),
            r@ == first_occurrences(offsets@.take(i as int)),
        decreases offsets@.len() - i,
    {
        let x = offsets[i];
        assert(offsets@.take(i + 1).drop_last() =~= offsets@.take(i as int));
        let mut seen = false;
        let mut j: usize = 0;
        while j < r.len()
            invariant
                j <= r@.len(),
                seen == r@.take(j as int).contains(x),
            decreases r@.len() - j,
        {
            proof {
                vstd::seq_lib::lemma_seq_contains_after_push(r@.take(j as int), r@[j as int], x);
                assert(r@.take(j + 1) =~= r@.take(j as int).push(r@[j as int]));
            }
            if r[j] == x {
                seen = true;
            }
            j = j + 1;
        }
        assert(r@.take(r@.len() as int) =~= r@);
        if !seen {
            r.push(x);
        }
        i = i + 1;
    }
    assert(offsets@.take(offsets@.len() as int) =~= offsets@);
    r
}

/// The keys of the node references, skipping incomplete ones.
pub fn narrowed_refs_to_offsets(item_types: Vec<SalsaDocTypeRef>) -> (r: Vec<u32>)
    ensures
        r@ == ref_keys(item_types@),
{
    let mut r: Vec<u32> = Vec::new();
    let mut i: usize = 0;
    while i < item_types.len()
        invariant
            i <= item_types@.len(),
            r@ == ref_keys(item_types@.take(i as int)),
        decreases item_types@.len() - i,
    {
        assert(item_types@.take(i + 1).drop_last() =~= item_types@.take(i as int));
        match item_types[i] {
            SalsaDocTypeRef::Node(k) => r.push(k),
            SalsaDocTypeRef::Incomplete => {},
        }
        i = i + 1;
    }
    assert(item_types@.take(item_types@.len() as int) =~= item_types@);
    r
}

proof fn lemma_resolved_lowered(
    doc_types: SalsaDocTypeIndexSummary,
    lowered_types: SalsaDocTypeLoweredIndex,
    key: u32,
    found: Option<(SalsaDocTypeNodeSummary, SalsaDocTypeLoweredNode)>,
)
    requires
        match found {
            Some((d, q)) => first_with_key(doc_types.types@, key) == Some(d) && first_with_key(lowered_types.types@, key)
                == Some(q),
            None => first_with_key(doc_types.types@, key).is_none() || first_with_key(lowered_types.types@, key).is_none(),
        },
    ensures
        resolved_lowered(doc_types.types@, lowered_types.types@, key) == match found {
            Some((d, q)) => Some(q),
            None => None,
        },
{
}

/// What a narrowing by the lowered doc types keeps of the node under `offset`.
fn narrow_lowered_offset(
    mode: &LoweredNarrow,
    offset: u32,
    property_query_index: &SalsaPropertyQueryIndex,
    doc_types: &SalsaDocTypeIndexSummary,
    lowered_types: &SalsaDocTypeLoweredIndex,
    visited: &mut Vec<u32>,
) -> (r: Vec<u32>)
    ensures
        (r@, final(visited)@.to_set()) == spec_narrow_lowered(
            lowered_narrow_spec(mode, *property_query_index),
            doc_types.types@,
            lowered_types.types@,
            offset,
            old(visited)@.to_set(),
        ),
    decreases unvisited(doc_types.types@, old(visited)@.to_set()), 0nat,
{
    let ghost d = doc_types.types@;
    let ghost l = lowered_types.types@;
    let ghost m = lowered_narrow_spec(mode, *property_query_index);
    let ghost v0 = visited@.to_set();
    if holds_key(visited, offset) {
        return keep_vec(matches!(mode, LoweredNarrow::FieldLiteral(_, _, _)), offset);
    }
    let ghost old_v = visited@;
    visited.push(offset);
    assert forall|x: u32| visited@.to_set().contains(x) <==> v0.insert(offset).contains(x) by {
        vstd::seq_lib::lemma_seq_contains_after_push(old_v, offset, x);
    }
    assert(visited@.to_set() =~= v0.insert(offset));
    let found = find_resolved_doc_type_by_key_from_parts(doc_types, lowered_types, offset);
    proof {
        lemma_resolved_lowered(
            *doc_types,
            *lowered_types,
            offset,
            match found {
                Some((x, y)) => Some((*x, *y)),
                None => None,
            },
        );
    }
    let q = match found {
        None => {
            return keep_vec(!matches!(mode, LoweredNarrow::Falsey), offset);
        },
        Some((_, q)) => q,
    };
    match &q.kind {
        SalsaDocTypeLoweredKind::Name { name } => {
            let keep = match mode {
                LoweredNarrow::Truthy => !(*name == "nil".to_owned()),
                LoweredNarrow::Falsey => *name == "nil".to_owned(),
                LoweredNarrow::TypeGuard(t) => *name == *t,
                LoweredNarrow::ExcludeTypeGuard(t) => !(*name == *t),
                LoweredNarrow::FieldLiteral(member, text, positive) => {
                    return narrow_named_type_by_discriminant(
                        offset,
                        name,
                        member,
                        text,
                        *positive,
                        property_query_index,
                        doc_types,
                    );
                },
            };
            keep_vec(keep, offset)
        },
        SalsaDocTypeLoweredKind::Literal { text } => {
            let keep = match mode {
                LoweredNarrow::Truthy => !is_nil_or_false(text),
                LoweredNarrow::Falsey => is_nil_or_false(text),
                LoweredNarrow::TypeGuard(_) => false,
                LoweredNarrow::ExcludeTypeGuard(_) => true,
                LoweredNarrow::FieldLiteral(_, _, _) => true,
            };
            keep_vec(keep, offset)
        },
        SalsaDocTypeLoweredKind::Nullable { inner_type } => {
            let mut items: Vec<SalsaDocTypeRef> = Vec::new();
            items.push(*inner_type);
            assert(items@ =~= seq![*inner_type]);
            match mode {
                LoweredNarrow::Truthy => {
                    proof {
                        assert(seq![*inner_type].drop_last() =~= Seq::<SalsaDocTypeRef>::empty());
                    }
                    narrowed_refs_to_offsets(items)
                },
                LoweredNarrow::Falsey => keep_vec(true, offset),
                LoweredNarrow::TypeGuard(_) => {
                    proof { lemma_unvisited_insert(d, v0, offset); }
                    narrow_lowered_refs(mode, offset, &items, property_query_index, doc_types, lowered_types, visited)
                },
                LoweredNarrow::FieldLiteral(_, _, _) => keep_vec(true, offset),
                LoweredNarrow::ExcludeTypeGuard(_) => {
                    proof { lemma_unvisited_insert(d, v0, offset); }
                    let inner = narrow_lowered_refs(mode, offset, &items, property_query_index, doc_types, lowered_types, visited);
                    let mut all: Vec<u32> = Vec::new();
                    all.push(offset);
                    let mut i: usize = 0;
                    while i < inner.len()
                        invariant
                            i <= inner@.len(),
                            all@ == seq![offset] + inner@.take(i as int),
                        decreases inner@.len() - i,
                    {
                        all.push(inner[i]);
                        assert(inner@.take(i + 1) =~= inner@.take(i as int).push(inner@[i as int]));
                        assert(all@ =~= seq![offset] + inner@.take(i + 1));
                        i = i + 1;
                    }
                    assert(inner@.take(inner@.len() as int) =~= inner@);
                    dedupe_offsets(all)
                },
            }
        },
        SalsaDocTypeLoweredKind::Union { item_types } => {
            proof { lemma_unvisited_insert(d, v0, offset); }
            narrow_lowered_refs(mode, offset, item_types, property_query_index, doc_types, lowered_types, visited)
        },
        SalsaDocTypeLoweredKind::MultiLineUnion { item_types } => {
            proof { lemma_unvisited_insert(d, v0, offset); }
            narrow_lowered_refs(mode, offset, item_types, property_query_index, doc_types, lowered_types, visited)
        },
        _ => keep_vec(
            matches!(mode, LoweredNarrow::Truthy) || matches!(mode, LoweredNarrow::ExcludeTypeGuard(_)) || matches!(
                mode,
                LoweredNarrow::FieldLiteral(_, _, _)
            ),
            offset,
        ),
    }
}

/// What a narrowing by the lowered doc types keeps of each reference in turn.
fn narrow_lowered_refs(
    mode: &LoweredNarrow,
    outer: u32,
    item_types: &Vec<SalsaDocTypeRef>,
    property_query_index: &SalsaPropertyQueryIndex,
    doc_types: &SalsaDocTypeIndexSummary,
    lowered_types: &SalsaDocTypeLoweredIndex,
    visited: &mut Vec<u32>,
) -> (r: Vec<u32>)
    ensures
        (r@, final(visited)@.to_set()) == spec_narrow_lowered_refs(
            lowered_narrow_spec(mode, *property_query_index),
            doc_types.types@,
            lowered_types.types@,
            outer,
            item_types@,
            old(visited)@.to_set(),
        ),
    decreases unvisited(doc_types.types@, old(visited)@.to_set()), item_types@.len(),
{
    let ghost d = doc_types.types@;
    let ghost l = lowered_types.types@;
    let ghost m = lowered_narrow_spec(mode, *property_query_index);
    let ghost v0 = visited@.to_set();
    let ghost whole = spec_narrow_lowered_refs(m, d, l, outer, item_types@, v0);
    let mut r: Vec<u32> = Vec::new();
    let mut i: usize = 0;
    assert(item_types@.skip(0) =~= item_types@);
    assert(r@ + whole.0 =~= whole.0);
    while i < item_types.len()
        invariant
            i <= item_types@.len(),
            d == doc_types.types@,
            l == lowered_types.types@,
            m == lowered_narrow_spec(mode, *property_query_index),
            v0 == old(visited)@.to_set(),
            v0.subset_of(visited@.to_set()),
            whole == spec_narrow_lowered_refs(m, d, l, outer, item_types@, v0),
            r@ + spec_narrow_lowered_refs(m, d, l, outer, item_types@.skip(i as int), visited@.to_set()).0 == whole.0,
            spec_narrow_lowered_refs(m, d, l, outer, item_types@.skip(i as int), visited@.to_set()).1 == whole.1,
        decreases item_types@.len() - i,
    {
        let ghost cur = visited@.to_set();
        let ghost rest = item_types@.skip(i as int);
        assert(rest.drop_first() =~= item_types@.skip(i + 1));
        assert(rest[0] == item_types@[i as int]);
        proof { lemma_unvisited_grow(d, v0, cur); }
        let part = match item_types[i] {
            SalsaDocTypeRef::Node(k) => narrow_lowered_offset(mode, k, property_query_index, doc_types, lowered_types, visited),
            SalsaDocTypeRef::Incomplete => keep_vec(matches!(mode, LoweredNarrow::FieldLiteral(_, _, _)), outer),
        };
        proof {
            lemma_narrow_lowered_grows(m, d, l, rest[0], cur);
            assert(visited@.to_set().union(cur) =~= visited@.to_set());
        }
        let ghost before = r@;
        let mut j: usize = 0;
        while j < part.len()
            invariant
                j <= part@.len(),
                r@ == before + part@.take(j as int),
            decreases part@.len() - j,
        {
            r.push(part[j]);
            assert(part@.take(j + 1) =~= part@.take(j as int).push(part@[j as int]));
            assert(r@ =~= before + part@.take(j + 1));
            j = j + 1;
        }
        assert(part@.take(part@.len() as int) =~= part@);
        assert(r@ + spec_narrow_lowered_refs(m, d, l, outer, item_types@.skip(i + 1), visited@.to_set()).0 =~= whole.0);
        i = i + 1;
    }
    assert(item_types@.skip(i as int) =~= Seq::<SalsaDocTypeRef>::empty());
    assert(r@ =~= whole.0);
    r
}

/// A walk only adds to the visited nodes.
pub proof fn lemma_narrow_lowered_grows(
    mode: LoweredNarrowSpec,
    nodes: Seq<SalsaDocTypeNodeSummary>,
    lowered: Seq<SalsaDocTypeLoweredNode>,
    r: SalsaDocTypeRef,
    visited: Set<u32>,
)
    ensures
        visited.subset_of(
            match r {
                SalsaDocTypeRef::Node(k) => spec_narrow_lowered(mode, nodes, lowered, k, visited).1,
                SalsaDocTypeRef::Incomplete => visited,
            },
        ),
    decreases unvisited(nodes, visited), 1nat,
{
    if let SalsaDocTypeRef::Node(k) = r {
        if !visited.contains(k) {
            let v1 = visited.insert(k);
            match resolved_lowered(nodes, lowered, k) {
                None => {},
                Some(q) => match q.kind {
                    SalsaDocTypeLoweredKind::Nullable { inner_type } => {
                        if mode is TypeGuard || mode is ExcludeTypeGuard {
                            lemma_unvisited_insert(nodes, visited, k);
                            lemma_narrow_lowered_refs_grow(mode, nodes, lowered, k, seq![inner_type], v1);
                        }
                    },
                    SalsaDocTypeLoweredKind::Union { item_types } => {
                        lemma_unvisited_insert(nodes, visited, k);
                        lemma_narrow_lowered_refs_grow(mode, nodes, lowered, k, item_types@, v1);
                    },
                    SalsaDocTypeLoweredKind::MultiLineUnion { item_types } => {
                        lemma_unvisited_insert(nodes, visited, k);
                        lemma_narrow_lowered_refs_grow(mode, nodes, lowered, k, item_types@, v1);
                    },
                    _ => {},
                },
            }
        }
    }
}

pub proof fn lemma_narrow_lowered_refs_grow(
    mode: LoweredNarrowSpec,
    nodes: Seq<SalsaDocTypeNodeSummary>,
    lowered: Seq<SalsaDocTypeLoweredNode>,
    outer: u32,
    refs: Seq<SalsaDocTypeRef>,
    visited: Set<u32>,
)
    ensures
        visited.subset_of(spec_narrow_lowered_refs(mode, nodes, lowered, outer, refs, visited).1),
    decreases unvisited(nodes, visited), refs.len(),
{
    if refs.len() > 0 {
        let first = match refs[0] {
            SalsaDocTypeRef::Node(k) => spec_narrow_lowered(mode, nodes, lowered, k, visited),
            SalsaDocTypeRef::Incomplete => (keep_if(mode is FieldLiteral, outer), visited),
        };
        let after = first.1.union(visited);
        lemma_unvisited_grow(nodes, visited, after);
        lemma_narrow_lowered_refs_grow(mode, nodes, lowered, outer, refs.drop_first(), after);
    }
}

/// A narrowing that walks the doc types themselves.
pub enum DocNarrowSpec {
    /// Keep the literal types equal (or, when not `positive`, unequal) to this text.
    Literal(Seq<char>, bool),
    /// Keep the named types whose field `member` is documented as a literal equal
    /// (or, when not `positive`, unequal) to this text, by their properties.
    FieldLiteral(Seq<char>, Seq<char>, bool, SalsaPropertyQueryIndex),
}

/// The properties of the type `owner_type` under the name `member`.
pub open spec fn discriminant_props(index: SalsaPropertyQueryIndex, owner_type: Seq<char>, member: Seq<char>) -> Seq<PropertyView> {
    spec_owner_key_properties(
        props_view(index.properties@).filter(|p: PropertyView| owned_by_type(p, owner_type)),
        PropertyKeyView::Name(member),
    )
}

/// The text of the literal type under `key`, when the first node under it is one.
pub open spec fn discriminant_text(nodes: Seq<SalsaDocTypeNodeSummary>, key: u32) -> Option<Seq<char>> {
    match first_with_key(nodes, key) {
        Some(n) => match n.kind {
            SalsaDocTypeKindSummary::Literal { text } => Some(text@),
            _ => None,
        },
        None => None,
    }
}

/// Some property is documented as the literal `text`.
pub open spec fn has_discriminant(nodes: Seq<SalsaDocTypeNodeSummary>, props: Seq<PropertyView>, text: Seq<char>) -> bool {
    exists|i: int|
        0 <= i < props.len() && match #[trigger] props[i].doc_type_offset {
            Some(o) => discriminant_text(nodes, o) == Some(text),
            None => false,
        }
}

/// What a field-literal narrowing keeps of the node `k` named `owner_type`: the
/// node, unless the type has fields under `member` and whether one of them is
/// documented as `text` disagrees with `positive`.
pub open spec fn spec_named_by_discriminant(
    nodes: Seq<SalsaDocTypeNodeSummary>,
    index: SalsaPropertyQueryIndex,
    k: u32,
    owner_type: Seq<char>,
    member: Seq<char>,
    text: Seq<char>,
    positive: bool,
) -> Seq<u32> {
    let props = discriminant_props(index, owner_type, member);
    if props.len() == 0 {
        seq![k]
    } else {
        keep_if(positive == has_discriminant(nodes, props, text), k)
    }
}

/// Over the nodes of `s` under `k`: what the named ones keep, and whether there
/// is a named one.
pub open spec fn spec_duplicate_names(
    nodes: Seq<SalsaDocTypeNodeSummary>,
    index: SalsaPropertyQueryIndex,
    s: Seq<SalsaDocTypeNodeSummary>,
    k: u32,
    member: Seq<char>,
    text: Seq<char>,
    positive: bool,
) -> (Seq<u32>, bool)
    decreases s.len(),
{
    if s.len() == 0 {
        (seq![], false)
    } else {
        let before = spec_duplicate_names(nodes, index, s.drop_last(), k, member, text, positive);
        let n = s.last();
        if n.key != k {
            before
        } else {
            match n.kind {
                SalsaDocTypeKindSummary::Name { name } => (
                    before.0 + match name {
                        Some(t) => spec_named_by_discriminant(nodes, index, k, t@, member, text, positive),
                        None => seq![],
                    },
                    true,
                ),
                _ => before,
            }
        }
    }
}

/// What a field-literal narrowing keeps of a node that it meets again: what the
/// named nodes under its key keep, each once; or the node itself, when none of
/// them is named.
pub open spec fn spec_narrow_duplicates(
    nodes: Seq<SalsaDocTypeNodeSummary>,
    index: SalsaPropertyQueryIndex,
    k: u32,
    member: Seq<char>,
    text: Seq<char>,
    positive: bool,
) -> Seq<u32> {
    let d = spec_duplicate_names(nodes, index, nodes, k, member, text, positive);
    if d.0.len() == 0 && !d.1 {
        seq![k]
    } else {
        first_occurrences(d.0)
    }
}

/// What a narrowing over the doc types keeps of the node under `k`, and the nodes
/// visited after it: a literal is tested against the text; a named type by its
/// discriminating field; both operands of a union, each item of a multi-line
/// union or tuple, and the inner type of a nullable or unary type are walked; any
/// other node, or one not listed, is kept.
pub open spec fn spec_narrow_doc(
    mode: DocNarrowSpec,
    nodes: Seq<SalsaDocTypeNodeSummary>,
    k: u32,
    visited: Set<u32>,
) -> (Seq<u32>, Set<u32>)
    decreases unvisited(nodes, visited), 0nat,
{
    if visited.contains(k) {
        (
            match mode {
                DocNarrowSpec::Literal(_, _) => seq![k],
                DocNarrowSpec::FieldLiteral(member, text, positive, index) => spec_narrow_duplicates(
                    nodes,
                    index,
                    k,
                    member,
                    text,
                    positive,
                ),
            },
            visited,
        )
    } else {
        let v1 = visited.insert(k);
        match first_with_key(nodes, k) {
            None => (seq![k], v1),
            Some(n) => match n.kind {
                SalsaDocTypeKindSummary::Literal { text } => match mode {
                    DocNarrowSpec::Literal(t, positive) => (keep_if((text@ == t) == positive, k), v1),
                    DocNarrowSpec::FieldLiteral(_, _, _, _) => (seq![k], v1),
                },
                SalsaDocTypeKindSummary::Name { name } => match mode {
                    DocNarrowSpec::Literal(_, _) => (seq![k], v1),
                    DocNarrowSpec::FieldLiteral(member, text, positive, index) => match name {
                        Some(t) => (spec_named_by_discriminant(nodes, index, k, t@, member, text, positive), v1),
                        None => (seq![k], v1),
                    },
                },
                SalsaDocTypeKindSummary::Binary { op, left_type_offset, right_type_offset } => if op
                    == SalsaDocTypeBinaryOperatorSummary::Union {
                    proof { lemma_unvisited_insert(nodes, visited, k); }
                    let a = match left_type_offset {
                        Some(x) => spec_narrow_doc(mode, nodes, x, v1),
                        None => (seq![], v1),
                    };
                    let after = a.1.union(v1);
                    proof { lemma_unvisited_grow(nodes, v1, after); }
                    let b = match right_type_offset {
                        Some(y) => spec_narrow_doc(mode, nodes, y, after),
                        None => (seq![], after),
                    };
                    (first_occurrences(a.0 + b.0), b.1)
                } else {
                    (seq![k], v1)
                },
                SalsaDocTypeKindSummary::MultiLineUnion { item_type_offsets } => {
                    proof { lemma_unvisited_insert(nodes, visited, k); }
                    spec_narrow_doc_keys(mode, nodes, item_type_offsets@, v1)
                },
                SalsaDocTypeKindSummary::Tuple { item_type_offsets } => {
                    proof { lemma_unvisited_insert(nodes, visited, k); }
                    spec_narrow_doc_keys(mode, nodes, item_type_offsets@, v1)
                },
                SalsaDocTypeKindSummary::Nullable { inner_type_offset } => match inner_type_offset {
                    Some(x) => {
                        proof { lemma_unvisited_insert(nodes, visited, k); }
                        spec_narrow_doc(mode, nodes, x, v1)
                    },
                    None => (seq![k], v1),
                },
                SalsaDocTypeKindSummary::Unary { op, inner_type_offset } => match inner_type_offset {
                    Some(x) => {
                        proof { lemma_unvisited_insert(nodes, visited, k); }
                        spec_narrow_doc(mode, nodes, x, v1)
                    },
                    None => (seq![k], v1),
                },
                _ => (seq![k], v1),
            },
        }
    }
}

/// What a narrowing over the doc types keeps of each node in turn, the visits of
/// each carried to the next.
pub open spec fn spec_narrow_doc_keys(
    mode: DocNarrowSpec,
    nodes: Seq<SalsaDocTypeNodeSummary>,
    keys: Seq<u32>,
    visited: Set<u32>,
) -> (Seq<u32>, Set<u32>)
    decreases unvisited(nodes, visited), keys.len(),
{
    if keys.len() == 0 {
        (seq![], visited)
    } else {
        let first = spec_narrow_doc(mode, nodes, keys[0], visited);
        let after = first.1.union(visited);
        proof { lemma_unvisited_grow(nodes, visited, after); }
        let rest = spec_narrow_doc_keys(mode, nodes, keys.drop_first(), after);
        (first.0 + rest.0, rest.1)
    }
}

/// A narrowing that walks the doc types themselves.
pub enum DocNarrow {
    Literal(String, bool),
    FieldLiteral(String, String, bool),
}

pub open spec fn doc_narrow_spec(mode: &DocNarrow, index: SalsaPropertyQueryIndex) -> DocNarrowSpec {
    match mode {
        DocNarrow::Literal(t, p) => DocNarrowSpec::Literal(t@, *p),
        DocNarrow::FieldLiteral(m, t, p) => DocNarrowSpec::FieldLiteral(m@, t@, *p, index),
    }
}

pub(crate) fn extend_keys(dst: &mut Vec<u32>, src: &Vec<u32>)
    ensures
        final(dst)@ == old(dst)@ + src@,
{
    let ghost start = dst@;
    let mut j: usize = 0;
    while j < src.len()
        invariant
            j <= src@.len(),
            dst@ == start + src@.take(j as int),
        decreases src@.len() - j,
    {
        dst.push(src[j]);
        assert(src@.take(j + 1) =~= src@.take(j as int).push(src@[j as int]));
        assert(dst@ =~= start + src@.take(j + 1));
        j = j + 1;
    }
    assert(src@.take(src@.len() as int) =~= src@);
}

/// The text of the literal type under `doc_type_offset`, when the first node
/// under it is one.
pub fn discriminant_literal_text(doc_type_offset: u32, doc_types: &SalsaDocTypeIndexSummary) -> (r: Option<String>)
    ensures
        match r {
            Some(t) => discriminant_text(doc_types.types@, doc_type_offset) == Some(t@),
            None => discriminant_text(doc_types.types@, doc_type_offset).is_none(),
        },
{
    proof { lemma_first_index_with_key(doc_types.types@, doc_type_offset); }
    match find_first_index(&doc_types.types, doc_type_offset) {
        None => None,
        Some(i) => match &doc_types.types[i].kind {
            SalsaDocTypeKindSummary::Literal { text } => Some(text.clone()),
            _ => None,
        },
    }
}

/// What a field-literal narrowing keeps of the node `offset` named `owner_type`.
pub fn narrow_named_type_by_discriminant(
    offset: u32,
    owner_type: &String,
    member_name: &String,
    literal_text: &String,
    positive: bool,
    property_query_index: &SalsaPropertyQueryIndex,
    doc_types: &SalsaDocTypeIndexSummary,
) -> (r: Vec<u32>)
    ensures
        r@ == spec_named_by_discriminant(
            doc_types.types@,
            *property_query_index,
            offset,
            owner_type@,
            member_name@,
            literal_text@,
            positive,
        ),
{
    let key = SalsaPropertyKeySummary::Name(member_name.clone());
    let ghost owned = props_view(property_query_index.properties@).filter(|p: PropertyView| owned_by_type(p, owner_type@));
    assert(key@ == PropertyKeyView::Name(member_name@));
    let properties = collect_properties_for_type_and_key_in_index(property_query_index, owner_type.as_str(), &key);
    let ghost props = props_view(properties@);
    assert(props == discriminant_props(*property_query_index, owner_type@, member_name@));
    if properties.len() == 0 {
        return keep_vec(true, offset);
    }
    let mut has_match = false;
    let mut i: usize = 0;
    while i < properties.len()
        invariant
            i <= properties@.len(),
            props == props_view(properties@),
            has_match == exists|j: int|
                0 <= j < i && match #[trigger] props[j].doc_type_offset {
                    Some(o) => discriminant_text(doc_types.types@, o) == Some(literal_text@),
                    None => false,
                },
        decreases properties@.len() - i,
    {
        assert(props[i as int] == properties@[i as int]@);
        let ghost here = match props[i as int].doc_type_offset {
            Some(o) => discriminant_text(doc_types.types@, o) == Some(literal_text@),
            None => false,
        };
        let ghost before = has_match;
        if let Some(o) = properties[i].doc_type_offset {
            if let Some(t) = discriminant_literal_text(o, doc_types) {
                if t == *literal_text {
                    has_match = true;
                }
            }
        }
        assert(has_match == (before || here));
        assert(has_match == exists|j: int|
            0 <= j < i + 1 && match #[trigger] props[j].doc_type_offset {
                Some(o) => discriminant_text(doc_types.types@, o) == Some(literal_text@),
                None => false,
            }) by {
            if here {
                assert(props[i as int].doc_type_offset == props[i as int].doc_type_offset);
            }
        }
        i = i + 1;
    }
    keep_vec(positive == has_match, offset)
}

/// What a field-literal narrowing keeps of the node `offset` when it meets it again.
pub fn narrow_duplicate_doc_type_entries_at_offset(
    offset: u32,
    member_name: &String,
    literal_text: &String,
    positive: bool,
    property_query_index: &SalsaPropertyQueryIndex,
    doc_types: &SalsaDocTypeIndexSummary,
) -> (r: Vec<u32>)
    ensures
        r@ == spec_narrow_duplicates(
            doc_types.types@,
            *property_query_index,
            offset,
            member_name@,
            literal_text@,
            positive,
        ),
{
    let ghost nodes = doc_types.types@;
    let mut saw_named_entry = false;
    let mut narrowed: Vec<u32> = Vec::new();
    let mut i: usize = 0;
    while i < doc_types.types.len()
        invariant
            i <= nodes.len(),
            nodes == doc_types.types@,
            (narrowed@, saw_named_entry) == spec_duplicate_names(
                nodes,
                *property_query_index,
                nodes.take(i as int),
                offset,
                member_name@,
                literal_text@,
                positive,
            ),
        decreases nodes.len() - i,
    {
        assert(nodes.take(i + 1).drop_last() =~= nodes.take(i as int));
        assert(nodes.take(i + 1).last() == nodes[i as int]);
        let n = &doc_types.types[i];
        if n.key == offset {
            match &n.kind {
                SalsaDocTypeKindSummary::Name { name } => {
                    saw_named_entry = true;
                    match name {
                        Some(t) => {
                            let part = narrow_named_type_by_discriminant(
                                offset,
                                t,
                                member_name,
                                literal_text,
                                positive,
                                property_query_index,
                                doc_types,
                            );
                            extend_keys(&mut narrowed, &part);
                        },
                        None => {
                            assert(narrowed@ + Seq::<u32>::empty() =~= narrowed@);
                        },
                    }
                },
                _ => {},
            }
        }
        i = i + 1;
    }
    assert(nodes.take(nodes.len() as int) =~= nodes);
    if narrowed.len() == 0 && !saw_named_entry {
        keep_vec(true, offset)
    } else {
        dedupe_offsets(narrowed)
    }
}

/// A walk over the doc types only adds to the visited nodes.
pub proof fn lemma_narrow_doc_grows(mode: DocNarrowSpec, nodes: Seq<SalsaDocTypeNodeSummary>, k: u32, visited: Set<u32>)
    ensures
        visited.subset_of(spec_narrow_doc(mode, nodes, k, visited).1),
    decreases unvisited(nodes, visited), 0nat,
{
    if !visited.contains(k) {
        let v1 = visited.insert(k);
        match first_with_key(nodes, k) {
            None => {},
            Some(n) => match n.kind {
                SalsaDocTypeKindSummary::Binary { op, left_type_offset, right_type_offset } => {
                    if op == SalsaDocTypeBinaryOperatorSummary::Union {
                        lemma_unvisited_insert(nodes, visited, k);
                        let a = match left_type_offset {
                            Some(x) => {
                                lemma_narrow_doc_grows(mode, nodes, x, v1);
                                spec_narrow_doc(mode, nodes, x, v1)
                            },
                            None => (seq![], v1),
                        };
                        let after = a.1.union(v1);
                        lemma_unvisited_grow(nodes, v1, after);
                        match right_type_offset {
                            Some(y) => lemma_narrow_doc_grows(mode, nodes, y, after),
                            None => {},
                        }
                    }
                },
                SalsaDocTypeKindSummary::MultiLineUnion { item_type_offsets } => {
                    lemma_unvisited_insert(nodes, visited, k);
                    lemma_narrow_doc_keys_grow(mode, nodes, item_type_offsets@, v1);
                },
                SalsaDocTypeKindSummary::Tuple { item_type_offsets } => {
                    lemma_unvisited_insert(nodes, visited, k);
                    lemma_narrow_doc_keys_grow(mode, nodes, item_type_offsets@, v1);
                },
                SalsaDocTypeKindSummary::Nullable { inner_type_offset } => {
                    if let Some(x) = inner_type_offset {
                        lemma_unvisited_insert(nodes, visited, k);
                        lemma_narrow_doc_grows(mode, nodes, x, v1);
                    }
                },
                SalsaDocTypeKindSummary::Unary { op, inner_type_offset } => {
                    if let Some(x) = inner_type_offset {
                        lemma_unvisited_insert(nodes, visited, k);
                        lemma_narrow_doc_grows(mode, nodes, x, v1);
                    }
                },
                _ => {},
            },
        }
    }
}

pub proof fn lemma_narrow_doc_keys_grow(
    mode: DocNarrowSpec,
    nodes: Seq<SalsaDocTypeNodeSummary>,
    keys: Seq<u32>,
    visited: Set<u32>,
)
    ensures
        visited.subset_of(spec_narrow_doc_keys(mode, nodes, keys, visited).1),
    decreases unvisited(nodes, visited), keys.len(),
{
    if keys.len() > 0 {
        let first = spec_narrow_doc(mode, nodes, keys[0], visited);
        let after = first.1.union(visited);
        lemma_unvisited_grow(nodes, visited, after);
        lemma_narrow_doc_keys_grow(mode, nodes, keys.drop_first(), after);
    }
}

pub(crate) fn mark_visited(visited: &mut Vec<u32>, k: u32)
    ensures
        final(visited)@.to_set() == old(visited)@.to_set().insert(k),
{
    let ghost old_v = visited@;
    visited.push(k);
    assert forall|x: u32| visited@.to_set().contains(x) <==> old_v.to_set().insert(k).contains(x) by {
        vstd::seq_lib::lemma_seq_contains_after_push(old_v, k, x);
    }
    assert(visited@.to_set() =~= old_v.to_set().insert(k));
}

/// What a narrowing over the doc types keeps of the node under `offset`.
fn narrow_doc_offset(
    mode: &DocNarrow,
    offset: u32,
    property_query_index: &SalsaPropertyQueryIndex,
    doc_types: &SalsaDocTypeIndexSummary,
    visited: &mut Vec<u32>,
) -> (r: Vec<u32>)
    ensures
        (r@, final(visited)@.to_set()) == spec_narrow_doc(
            doc_narrow_spec(mode, *property_query_index),
            doc_types.types@,
            offset,
            old(visited)@.to_set(),
        ),
    decreases unvisited(doc_types.types@, old(visited)@.to_set()), 0nat,
{
    let ghost d = doc_types.types@;
    let ghost m = doc_narrow_spec(mode, *property_query_index);
    let ghost v0 = visited@.to_set();
    if holds_key(visited, offset) {
        return match mode {
            DocNarrow::Literal(_, _) => keep_vec(true, offset),
            DocNarrow::FieldLiteral(member, text, positive) => narrow_duplicate_doc_type_entries_at_offset(
                offset,
                member,
                text,
                *positive,
                property_query_index,
                doc_types,
            ),
        };
    }
    mark_visited(visited, offset);
    let ghost v1 = v0.insert(offset);
    proof { lemma_first_index_with_key(d, offset); }
    let n = match find_first_index(&doc_types.types, offset) {
        None => {
            return keep_vec(true, offset);
        },
        Some(i) => &doc_types.types[i],
    };
    assert(first_with_key(d, offset) == Some(*n));
    match &n.kind {
        SalsaDocTypeKindSummary::Literal { text } => match mode {
            DocNarrow::Literal(t, positive) => keep_vec((*text == *t) == *positive, offset),
            DocNarrow::FieldLiteral(_, _, _) => keep_vec(true, offset),
        },
        SalsaDocTypeKindSummary::Name { name } => match mode {
            DocNarrow::Literal(_, _) => keep_vec(true, offset),
            DocNarrow::FieldLiteral(member, text, positive) => match name {
                Some(t) => narrow_named_type_by_discriminant(
                    offset,
                    t,
                    member,
                    text,
                    *positive,
                    property_query_index,
                    doc_types,
                ),
                None => keep_vec(true, offset),
            },
        },
        SalsaDocTypeKindSummary::Binary { op, left_type_offset, right_type_offset } => {
            if *op == SalsaDocTypeBinaryOperatorSummary::Union {
                proof { lemma_unvisited_insert(d, v0, offset); }
                let mut narrowed: Vec<u32> = Vec::new();
                if let Some(x) = left_type_offset {
                    let part = narrow_doc_offset(mode, *x, property_query_index, doc_types, visited);
                    proof { lemma_narrow_doc_grows(m, d, *x, v1); }
                    extend_keys(&mut narrowed, &part);
                }
                let ghost a = match *left_type_offset {
                    Some(x) => spec_narrow_doc(m, d, x, v1),
                    None => (seq![], v1),
                };
                assert(narrowed@ =~= a.0);
                assert(visited@.to_set() =~= a.1.union(v1));
                proof { lemma_unvisited_grow(d, v1, visited@.to_set()); }
                if let Some(y) = right_type_offset {
                    let part = narrow_doc_offset(mode, *y, property_query_index, doc_types, visited);
                    extend_keys(&mut narrowed, &part);
                } else {
                    assert(narrowed@ + Seq::<u32>::empty() =~= narrowed@);
                }
                dedupe_offsets(narrowed)
            } else {
                keep_vec(true, offset)
            }
        },
        SalsaDocTypeKindSummary::MultiLineUnion { item_type_offsets } => {
            proof { lemma_unvisited_insert(d, v0, offset); }
            narrow_doc_keys(mode, item_type_offsets, property_query_index, doc_types, visited)
        },
        SalsaDocTypeKindSummary::Tuple { item_type_offsets } => {
            proof { lemma_unvisited_insert(d, v0, offset); }
            narrow_doc_keys(mode, item_type_offsets, property_query_index, doc_types, visited)
        },
        SalsaDocTypeKindSummary::Nullable { inner_type_offset } => match inner_type_offset {
            Some(x) => {
                proof { lemma_unvisited_insert(d, v0, offset); }
                narrow_doc_offset(mode, *x, property_query_index, doc_types, visited)
            },
            None => keep_vec(true, offset),
        },
        SalsaDocTypeKindSummary::Unary { op, inner_type_offset } => match inner_type_offset {
            Some(x) => {
                proof { lemma_unvisited_insert(d, v0, offset); }
                narrow_doc_offset(mode, *x, property_query_index, doc_types, visited)
            },
            None => keep_vec(true, offset),
        },
        _ => keep_vec(true, offset),
    }
}

/// What a narrowing over the doc types keeps of each node in turn.
fn narrow_doc_keys(
    mode: &DocNarrow,
    keys: &Vec<u32>,
    property_query_index: &SalsaPropertyQueryIndex,
    doc_types: &SalsaDocTypeIndexSummary,
    visited: &mut Vec<u32>,
) -> (r: Vec<u32>)
    ensures
        (r@, final(visited)@.to_set()) == spec_narrow_doc_keys(
            doc_narrow_spec(mode, *property_query_index),
            doc_types.types@,
            keys@,
            old(visited)@.to_set(),
        ),
    decreases unvisited(doc_types.types@, old(visited)@.to_set()), keys@.len(),
{
    let ghost d = doc_types.types@;
    let ghost m = doc_narrow_spec(mode, *property_query_index);
    let ghost v0 = visited@.to_set();
    let ghost whole = spec_narrow_doc_keys(m, d, keys@, v0);
    let mut r: Vec<u32> = Vec::new();
    let mut i: usize = 0;
    assert(keys@.skip(0) =~= keys@);
    assert(r@ + whole.0 =~= whole.0);
    while i < keys.len()
        invariant
            i <= keys@.len(),
            d == doc_types.types@,
            m == doc_narrow_spec(mode, *property_query_index),
            v0 == old(visited)@.to_set(),
            v0.subset_of(visited@.to_set()),
            whole == spec_narrow_doc_keys(m, d, keys@, v0),
            r@ + spec_narrow_doc_keys(m, d, keys@.skip(i as int), visited@.to_set()).0 == whole.0,
            spec_narrow_doc_keys(m, d, keys@.skip(i as int), visited@.to_set()).1 == whole.1,
        decreases keys@.len() - i,
    {
        let ghost cur = visited@.to_set();
        let ghost rest = keys@.skip(i as int);
        assert(rest.drop_first() =~= keys@.skip(i + 1));
        assert(rest[0] == keys@[i as int]);
        proof { lemma_unvisited_grow(d, v0, cur); }
        let part = narrow_doc_offset(mode, keys[i], property_query_index, doc_types, visited);
        proof {
            lemma_narrow_doc_grows(m, d, rest[0], cur);
            assert(visited@.to_set().union(cur) =~= visited@.to_set());
        }
        let ghost before = r@;
        extend_keys(&mut r, &part);
        assert(r@ + spec_narrow_doc_keys(m, d, keys@.skip(i + 1), visited@.to_set()).0 =~= whole.0);
        i = i + 1;
    }
    assert(keys@.skip(i as int) =~= Seq::<u32>::empty());
    assert(r@ =~= whole.0);
    r
}

fn no_properties() -> (r: SalsaPropertyQueryIndex)
    ensures
        r.properties@.len() == 0,
{
    SalsaPropertyQueryIndex { properties: Vec::new() }
}

/// What narrowing to truthy values keeps of the node under `offset`: not `nil`
/// nor `false`; of a nullable type its inner type; of a union what it keeps of
/// each item; any other node, or one it cannot look into, it keeps.
pub fn narrow_truthy_type_offset(
    offset: u32,
    doc_types: &SalsaDocTypeIndexSummary,
    lowered_types: &SalsaDocTypeLoweredIndex,
    visited: &mut Vec<u32>,
) -> (r: Vec<u32>)
    ensures
        (r@, final(visited)@.to_set()) == spec_narrow_lowered(
            LoweredNarrowSpec::Truthy,
            doc_types.types@,
            lowered_types.types@,
            offset,
            old(visited)@.to_set(),
        ),
{
    narrow_lowered_offset(&LoweredNarrow::Truthy, offset, &no_properties(), doc_types, lowered_types, visited)
}

pub fn narrow_truthy_type_ref(
    type_ref: SalsaDocTypeRef,
    doc_types: &SalsaDocTypeIndexSummary,
    lowered_types: &SalsaDocTypeLoweredIndex,
    visited: &mut Vec<u32>,
) -> (r: Vec<u32>)
    ensures
        (r@, final(visited)@.to_set()) == match type_ref {
            SalsaDocTypeRef::Node(k) => spec_narrow_lowered(
                LoweredNarrowSpec::Truthy,
                doc_types.types@,
                lowered_types.types@,
                k,
                old(visited)@.to_set(),
            ),
            SalsaDocTypeRef::Incomplete => (seq![], old(visited)@.to_set()),
        },
{
    match type_ref {
        SalsaDocTypeRef::Node(k) => narrow_truthy_type_offset(k, doc_types, lowered_types, visited),
        SalsaDocTypeRef::Incomplete => keep_vec(false, 0),
    }
}

/// What narrowing to falsey values keeps of the node under `offset`: `nil`,
/// `false` and nullable types; of a union what it keeps of each item; nothing
/// else.
pub fn narrow_falsey_type_offset(
    offset: u32,
    doc_types: &SalsaDocTypeIndexSummary,
    lowered_types: &SalsaDocTypeLoweredIndex,
    visited: &mut Vec<u32>,
) -> (r: Vec<u32>)
    ensures
        (r@, final(visited)@.to_set()) == spec_narrow_lowered(
            LoweredNarrowSpec::Falsey,
            doc_types.types@,
            lowered_types.types@,
            offset,
            old(visited)@.to_set(),
        ),
{
    narrow_lowered_offset(&LoweredNarrow::Falsey, offset, &no_properties(), doc_types, lowered_types, visited)
}

pub fn narrow_falsey_type_ref(
    type_ref: SalsaDocTypeRef,
    doc_types: &SalsaDocTypeIndexSummary,
    lowered_types: &SalsaDocTypeLoweredIndex,
    visited: &mut Vec<u32>,
) -> (r: Vec<u32>)
    ensures
        (r@, final(visited)@.to_set()) == match type_ref {
            SalsaDocTypeRef::Node(k) => spec_narrow_lowered(
                LoweredNarrowSpec::Falsey,
                doc_types.types@,
                lowered_types.types@,
                k,
                old(visited)@.to_set(),
            ),
            SalsaDocTypeRef::Incomplete => (seq![], old(visited)@.to_set()),
        },
{
    match type_ref {
        SalsaDocTypeRef::Node(k) => narrow_falsey_type_offset(k, doc_types, lowered_types, visited),
        SalsaDocTypeRef::Incomplete => keep_vec(false, 0),
    }
}

/// What narrowing to the type `owner_type` keeps of the node under `offset`: a
/// type of that name; of a nullable or a union what it keeps of the inner type or
/// the items; nothing else, but a node it cannot look into.
pub fn narrow_type_guard_offset(
    offset: u32,
    owner_type: &String,
    doc_types: &SalsaDocTypeIndexSummary,
    lowered_types: &SalsaDocTypeLoweredIndex,
    visited: &mut Vec<u32>,
) -> (r: Vec<u32>)
    ensures
        (r@, final(visited)@.to_set()) == spec_narrow_lowered(
            LoweredNarrowSpec::TypeGuard(owner_type@),
            doc_types.types@,
            lowered_types.types@,
            offset,
            old(visited)@.to_set(),
        ),
{
    let mode = LoweredNarrow::TypeGuard(owner_type.clone());
    narrow_lowered_offset(&mode, offset, &no_properties(), doc_types, lowered_types, visited)
}

pub fn narrowed_refs_by_type_guard(
    item_types: Vec<SalsaDocTypeRef>,
    owner_type: &String,
    doc_types: &SalsaDocTypeIndexSummary,
    lowered_types: &SalsaDocTypeLoweredIndex,
    visited: &mut Vec<u32>,
) -> (r: Vec<u32>)
    ensures
        (r@, final(visited)@.to_set()) == spec_narrow_lowered_refs(
            LoweredNarrowSpec::TypeGuard(owner_type@),
            doc_types.types@,
            lowered_types.types@,
            0,
            item_types@,
            old(visited)@.to_set(),
        ),
{
    let mode = LoweredNarrow::TypeGuard(owner_type.clone());
    narrow_lowered_refs(&mode, 0, &item_types, &no_properties(), doc_types, lowered_types, visited)
}

/// What narrowing away the type `owner_type` keeps of the node under `offset`:
/// not a type of that name; of a nullable type the node and what it keeps of the
/// inner type; of a union what it keeps of each item; any other node.
pub fn exclude_type_guard_offset(
    offset: u32,
    owner_type: &String,
    doc_types: &SalsaDocTypeIndexSummary,
    lowered_types: &SalsaDocTypeLoweredIndex,
    visited: &mut Vec<u32>,
) -> (r: Vec<u32>)
    ensures
        (r@, final(visited)@.to_set()) == spec_narrow_lowered(
            LoweredNarrowSpec::ExcludeTypeGuard(owner_type@),
            doc_types.types@,
            lowered_types.types@,
            offset,
            old(visited)@.to_set(),
        ),
{
    let mode = LoweredNarrow::ExcludeTypeGuard(owner_type.clone());
    narrow_lowered_offset(&mode, offset, &no_properties(), doc_types, lowered_types, visited)
}

pub fn excluded_refs_by_type_guard(
    item_types: Vec<SalsaDocTypeRef>,
    owner_type: &String,
    doc_types: &SalsaDocTypeIndexSummary,
    lowered_types: &SalsaDocTypeLoweredIndex,
    visited: &mut Vec<u32>,
) -> (r: Vec<u32>)
    ensures
        (r@, final(visited)@.to_set()) == spec_narrow_lowered_refs(
            LoweredNarrowSpec::ExcludeTypeGuard(owner_type@),
            doc_types.types@,
            lowered_types.types@,
            0,
            item_types@,
            old(visited)@.to_set(),
        ),
{
    let mode = LoweredNarrow::ExcludeTypeGuard(owner_type.clone());
    narrow_lowered_refs(&mode, 0, &item_types, &no_properties(), doc_types, lowered_types, visited)
}

/// What narrowing to the literal `literal_text` (or, when not `positive`, away
/// from it) keeps of the node under `offset`.
pub fn narrow_literal_offset(
    offset: u32,
    literal_text: &String,
    positive: bool,
    doc_types: &SalsaDocTypeIndexSummary,
    lowered_types: &SalsaDocTypeLoweredIndex,
    visited: &mut Vec<u32>,
) -> (r: Vec<u32>)
    ensures
        (r@, final(visited)@.to_set()) == spec_narrow_doc(
            DocNarrowSpec::Literal(literal_text@, positive),
            doc_types.types@,
            offset,
            old(visited)@.to_set(),
        ),
{
    let mode = DocNarrow::Literal(literal_text.clone(), positive);
    narrow_doc_offset(&mode, offset, &no_properties(), doc_types, visited)
}

/// What narrowing by the field `member_name` equal to `literal_text` (or, when not
/// `positive`, unequal) keeps of the node under `offset`.
pub fn narrow_field_literal_offset(
    offset: u32,
    member_name: &String,
    literal_text: &String,
    positive: bool,
    property_query_index: &SalsaPropertyQueryIndex,
    doc_types: &SalsaDocTypeIndexSummary,
    lowered_types: &SalsaDocTypeLoweredIndex,
    visited: &mut Vec<u32>,
) -> (r: Vec<u32>)
    ensures
        (r@, final(visited)@.to_set()) == spec_narrow_doc(
            DocNarrowSpec::FieldLiteral(member_name@, literal_text@, positive, *property_query_index),
            doc_types.types@,
            offset,
            old(visited)@.to_set(),
        ),
{
    let mode = DocNarrow::FieldLiteral(member_name.clone(), literal_text.clone(), positive);
    narrow_doc_offset(&mode, offset, property_query_index, doc_types, visited)
}

/// The same narrowing by field, over the lowered doc types.
pub fn narrow_field_literal_lowered_fallback(
    offset: u32,
    member_name: &String,
    literal_text: &String,
    positive: bool,
    property_query_index: &SalsaPropertyQueryIndex,
    doc_types: &SalsaDocTypeIndexSummary,
    lowered_types: &SalsaDocTypeLoweredIndex,
    visited: &mut Vec<u32>,
) -> (r: Vec<u32>)
    ensures
        (r@, final(visited)@.to_set()) == spec_narrow_lowered(
            LoweredNarrowSpec::FieldLiteral(member_name@, literal_text@, positive, *property_query_index),
            doc_types.types@,
            lowered_types.types@,
            offset,
            old(visited)@.to_set(),
        ),
{
    let mode = LoweredNarrow::FieldLiteral(member_name.clone(), literal_text.clone(), positive);
    narrow_lowered_offset(&mode, offset, property_query_index, doc_types, lowered_types, visited)
}

/// What a condition shows of a value.
#[derive(Clone, Debug)]
pub enum SalsaTypeNarrowSummary {
    Truthy,
    Falsey,
    Literal { literal_text: String, positive: bool },
    TypeGuard { guard_name: String },
    ExcludeTypeGuard { guard_name: String },
    FieldLiteral { member_name: String, literal_text: String, positive: bool },
}

/// What one narrowing keeps of the node under `k`, walked afresh.
pub open spec fn spec_narrow_one(
    narrow: SalsaTypeNarrowSummary,
    index: SalsaPropertyQueryIndex,
    nodes: Seq<SalsaDocTypeNodeSummary>,
    lowered: Seq<SalsaDocTypeLoweredNode>,
    k: u32,
) -> Seq<u32> {
    match narrow {
        SalsaTypeNarrowSummary::Truthy => spec_narrow_lowered(LoweredNarrowSpec::Truthy, nodes, lowered, k, Set::empty()).0,
        SalsaTypeNarrowSummary::Falsey => spec_narrow_lowered(LoweredNarrowSpec::Falsey, nodes, lowered, k, Set::empty()).0,
        SalsaTypeNarrowSummary::Literal { literal_text, positive } => spec_narrow_doc(
            DocNarrowSpec::Literal(literal_text@, positive),
            nodes,
            k,
            Set::empty(),
        ).0,
        SalsaTypeNarrowSummary::TypeGuard { guard_name } => spec_narrow_lowered(
            LoweredNarrowSpec::TypeGuard(guard_name@),
            nodes,
            lowered,
            k,
            Set::empty(),
        ).0,
        SalsaTypeNarrowSummary::ExcludeTypeGuard { guard_name } => spec_narrow_lowered(
            LoweredNarrowSpec::ExcludeTypeGuard(guard_name@),
            nodes,
            lowered,
            k,
            Set::empty(),
        ).0,
        SalsaTypeNarrowSummary::FieldLiteral { member_name, literal_text, positive } => spec_narrow_doc(
            DocNarrowSpec::FieldLiteral(member_name@, literal_text@, positive, index),
            nodes,
            k,
            Set::empty(),
        ).0,
    }
}

/// What one narrowing keeps of each node in turn.
pub open spec fn spec_narrow_each(
    narrow: SalsaTypeNarrowSummary,
    index: SalsaPropertyQueryIndex,
    nodes: Seq<SalsaDocTypeNodeSummary>,
    lowered: Seq<SalsaDocTypeLoweredNode>,
    offsets: Seq<u32>,
) -> Seq<u32>
    decreases offsets.len(),
{
    if offsets.len() == 0 {
        seq![]
    } else {
        spec_narrow_each(narrow, index, nodes, lowered, offsets.drop_last()) + spec_narrow_one(
            narrow,
            index,
            nodes,
            lowered,
            offsets.last(),
        )
    }
}

/// The doc types left after each narrowing in turn.
pub open spec fn spec_narrow_type_offsets(
    offsets: Seq<u32>,
    narrows: Seq<SalsaTypeNarrowSummary>,
    index: SalsaPropertyQueryIndex,
    nodes: Seq<SalsaDocTypeNodeSummary>,
    lowered: Seq<SalsaDocTypeLoweredNode>,
) -> Seq<u32>
    decreases narrows.len(),
{
    if narrows.len() == 0 {
        offsets
    } else {
        spec_narrow_each(
            narrows.last(),
            index,
            nodes,
            lowered,
            spec_narrow_type_offsets(offsets, narrows.drop_last(), index, nodes, lowered),
        )
    }
}

fn narrow_one(
    narrow: &SalsaTypeNarrowSummary,
    offset: u32,
    property_query_index: &SalsaPropertyQueryIndex,
    doc_types: &SalsaDocTypeIndexSummary,
    lowered_types: &SalsaDocTypeLoweredIndex,
) -> (r: Vec<u32>)
    ensures
        r@ == spec_narrow_one(*narrow, *property_query_index, doc_types.types@, lowered_types.types@, offset),
{
    let mut visited: Vec<u32> = Vec::new();
    assert(visited@.to_set() =~= Set::<u32>::empty());
    match narrow {
        SalsaTypeNarrowSummary::Truthy => narrow_truthy_type_offset(offset, doc_types, lowered_types, &mut visited),
        SalsaTypeNarrowSummary::Falsey => narrow_falsey_type_offset(offset, doc_types, lowered_types, &mut visited),
        SalsaTypeNarrowSummary::Literal { literal_text, positive } => narrow_literal_offset(
            offset,
            literal_text,
            *positive,
            doc_types,
            lowered_types,
            &mut visited,
        ),
        SalsaTypeNarrowSummary::TypeGuard { guard_name } => narrow_type_guard_offset(
            offset,
            guard_name,
            doc_types,
            lowered_types,
            &mut visited,
        ),
        SalsaTypeNarrowSummary::ExcludeTypeGuard { guard_name } => exclude_type_guard_offset(
            offset,
            guard_name,
            doc_types,
            lowered_types,
            &mut visited,
        ),
        SalsaTypeNarrowSummary::FieldLiteral { member_name, literal_text, positive } => narrow_field_literal_offset(
            offset,
            member_name,
            literal_text,
            *positive,
            property_query_index,
            doc_types,
            lowered_types,
            &mut visited,
        ),
    }
}

/// Narrows doc types by each narrowing in turn: each narrowing replaces every
/// node by what it keeps of it, walking from that node afresh.
pub fn narrow_type_offsets(
    offsets: Vec<u32>,
    property_query_index: &SalsaPropertyQueryIndex,
    doc_types: &SalsaDocTypeIndexSummary,
    lowered_types: &SalsaDocTypeLoweredIndex,
    active_narrows: &Vec<SalsaTypeNarrowSummary>,
) -> (r: Vec<u32>)
    ensures
        r@ == spec_narrow_type_offsets(
            offsets@,
            active_narrows@,
            *property_query_index,
            doc_types.types@,
            lowered_types.types@,
        ),
{
    let ghost index = *property_query_index;
    let ghost nodes = doc_types.types@;
    let ghost lowered = lowered_types.types@;
    let mut current = offsets;
    let mut n: usize = 0;
    while n < active_narrows.len()
        invariant
            n <= active_narrows@.len(),
            current@ == spec_narrow_type_offsets(offsets@, active_narrows@.take(n as int), index, nodes, lowered),
            index == *property_query_index,
            nodes == doc_types.types@,
            lowered == lowered_types.types@,
        decreases active_narrows@.len() - n,
    {
        let narrow = &active_narrows[n];
        let mut next: Vec<u32> = Vec::new();
        let mut i: usize = 0;
        while i < current.len()
            invariant
                i <= current@.len(),
                next@ == spec_narrow_each(*narrow, index, nodes, lowered, current@.take(i as int)),
                index == *property_query_index,
                nodes == doc_types.types@,
                lowered == lowered_types.types@,
            decreases current@.len() - i,
        {
            assert(current@.take(i + 1).drop_last() =~= current@.take(i as int));
            let part = narrow_one(narrow, current[i], property_query_index, doc_types, lowered_types);
            extend_keys(&mut next, &part);
            i = i + 1;
        }
        assert(current@.take(current@.len() as int) =~= current@);
        assert(active_narrows@.take(n + 1).drop_last() =~= active_narrows@.take(n as int));
        current = next;
        n = n + 1;
    }
    assert(active_narrows@.take(active_narrows@.len() as int) =~= active_narrows@);
    current
}

/// A candidate narrowed by the active narrowings: its doc types narrowed, unless
/// narrowing leaves none of the doc types it had.
pub fn apply_narrows_to_candidate(
    candidate: SalsaTypeCandidateSummary,
    property_query_index: &SalsaPropertyQueryIndex,
    doc_types: &SalsaDocTypeIndexSummary,
    lowered_types: &SalsaDocTypeLoweredIndex,
    active_narrows: &Vec<SalsaTypeNarrowSummary>,
) -> (r: SalsaTypeCandidateSummary)
    ensures
        r@ == (CandidateView {
            explicit_type_offsets: {
                let narrowed = spec_narrow_type_offsets(
                    candidate.explicit_type_offsets@,
                    active_narrows@,
                    *property_query_index,
                    doc_types.types@,
                    lowered_types.types@,
                );
                if narrowed.len() == 0 && candidate.explicit_type_offsets@.len() > 0 {
                    candidate.explicit_type_offsets@
                } else {
                    narrowed
                }
            },
            ..candidate@
        }),
{
    let mut candidate = candidate;
    let declared_offsets = crate::signature_model::clone_u32_vec(&candidate.explicit_type_offsets);
    let mut offsets = narrow_type_offsets(
        crate::signature_model::clone_u32_vec(&declared_offsets),
        property_query_index,
        doc_types,
        lowered_types,
        active_narrows,
    );
    if offsets.len() == 0 && declared_offsets.len() > 0 {
        offsets = declared_offsets;
    }
    candidate.explicit_type_offsets = offsets;
    candidate
}

fn clone_narrow(n: &SalsaTypeNarrowSummary) -> (r: SalsaTypeNarrowSummary)
    ensures
        r == *n,
{
    match n {
        SalsaTypeNarrowSummary::Truthy => SalsaTypeNarrowSummary::Truthy,
        SalsaTypeNarrowSummary::Falsey => SalsaTypeNarrowSummary::Falsey,
        SalsaTypeNarrowSummary::Literal { literal_text, positive } => SalsaTypeNarrowSummary::Literal {
            literal_text: literal_text.clone(),
            positive: *positive,
        },
        SalsaTypeNarrowSummary::TypeGuard { guard_name } => SalsaTypeNarrowSummary::TypeGuard { guard_name: guard_name.clone() },
        SalsaTypeNarrowSummary::ExcludeTypeGuard { guard_name } => SalsaTypeNarrowSummary::ExcludeTypeGuard {
            guard_name: guard_name.clone(),
        },
        SalsaTypeNarrowSummary::FieldLiteral { member_name, literal_text, positive } => SalsaTypeNarrowSummary::FieldLiteral {
            member_name: member_name.clone(),
            literal_text: literal_text.clone(),
            positive: *positive,
        },
    }
}

/// Whether `narrow` keeps anything of the doc type under `type_offset`.
pub fn narrow_matches_type_offset(
    type_offset: u32,
    narrow: &SalsaTypeNarrowSummary,
    property_query_index: &SalsaPropertyQueryIndex,
    doc_types: &SalsaDocTypeIndexSummary,
    lowered_types: &SalsaDocTypeLoweredIndex,
) -> (r: bool)
    ensures
        r == (spec_narrow_type_offsets(
            seq![type_offset],
            seq![*narrow],
            *property_query_index,
            doc_types.types@,
            lowered_types.types@,
        ).len() > 0),
{
    let mut offsets: Vec<u32> = Vec::new();
    offsets.push(type_offset);
    let mut narrows: Vec<SalsaTypeNarrowSummary> = Vec::new();
    narrows.push(clone_narrow(narrow));
    assert(offsets@ =~= seq![type_offset]);
    assert(narrows@ =~= seq![*narrow]);
    let kept = narrow_type_offsets(offsets, property_query_index, doc_types, lowered_types, &narrows);
    kept.len() > 0
}

} // verus!
