//! Building the semantic graph of a file: a node for each declaration, member,
//! signature, `for ... in` loop and the module export, and an edge for each
//! dependency that initializers, loops, returns and the export show.
use vstd::prelude::*;

use crate::decls::{SalsaDeclSummary, SalsaDeclTreeSummary};
use crate::lookup::first_with_key;
use crate::semantic::{SalsaSemanticTargetSummary, SalsaSingleFileSemanticSummary};
use crate::semantic_graph::{
    SalsaSemanticGraphEdgeKindSummary, SalsaSemanticGraphEdgeSummary, SalsaSemanticGraphNodeSummary,
    SalsaSemanticGraphSummary, insert_node_sorted_unique, lemma_node_key_injective, node_key, node_key_of,
    nodes_strictly_sorted,
};
use crate::signature_model::{
    SalsaSignatureIndexSummary, SalsaSignatureSummary, SalsaForRangeIterQueryIndex, SalsaForRangeIterQuerySummary, SalsaSignatureExplainIndex,
    SalsaSignatureReturnQueryIndex, SalsaSignatureReturnValueSummary, find_call_explain_at, opt_call_view,
    spec_find_call_explain_at,
};
use crate::solver_shells::find_signature_return_query_at;
use crate::type_info::{SalsaMemberTypeInfoSummary, SalsaMemberTypeQueryIndex};
use crate::uses::{
    SalsaMemberUseSummary, SalsaNameUseResolutionSummary, SalsaNameUseSummary, SalsaUseSiteIndexSummary,
    find_member_use_at, find_name_use_at, opt_at, use_at_index,
};

verus! {

/// The rank of an edge kind in the order of edges, as declared.
pub open spec fn edge_kind_rank(k: SalsaSemanticGraphEdgeKindSummary) -> int {
    match k {
        SalsaSemanticGraphEdgeKindSummary::ExportTarget => 0,
        SalsaSemanticGraphEdgeKindSummary::SignatureReturnMember => 1,
        SalsaSemanticGraphEdgeKindSummary::SignatureReturnDecl => 2,
        SalsaSemanticGraphEdgeKindSummary::ResolvedCallReturn => 3,
        SalsaSemanticGraphEdgeKindSummary::CandidateCallReturn => 4,
        SalsaSemanticGraphEdgeKindSummary::InitializerMember => 5,
        SalsaSemanticGraphEdgeKindSummary::InitializerDecl => 6,
        SalsaSemanticGraphEdgeKindSummary::InitializerResolvedCallReturn => 7,
        SalsaSemanticGraphEdgeKindSummary::InitializerCandidateCallReturn => 8,
    }
}

/// The order of edges: by source, then by target, then by kind.
pub open spec fn edge_key(e: SalsaSemanticGraphEdgeSummary) -> int {
    node_key(e.from) * 0x80_0000_0000 + node_key(e.to) * 16 + edge_kind_rank(e.kind)
}

fn edge_key_of(e: &SalsaSemanticGraphEdgeSummary) -> (r: u128)
    ensures
        r == edge_key(*e),
{
    let rank: u128 = match e.kind {
        SalsaSemanticGraphEdgeKindSummary::ExportTarget => 0,
        SalsaSemanticGraphEdgeKindSummary::SignatureReturnMember => 1,
        SalsaSemanticGraphEdgeKindSummary::SignatureReturnDecl => 2,
        SalsaSemanticGraphEdgeKindSummary::ResolvedCallReturn => 3,
        SalsaSemanticGraphEdgeKindSummary::CandidateCallReturn => 4,
        SalsaSemanticGraphEdgeKindSummary::InitializerMember => 5,
        SalsaSemanticGraphEdgeKindSummary::InitializerDecl => 6,
        SalsaSemanticGraphEdgeKindSummary::InitializerResolvedCallReturn => 7,
        SalsaSemanticGraphEdgeKindSummary::InitializerCandidateCallReturn => 8,
    };
    let from: u128 = node_key_of(&e.from) as u128;
    let to: u128 = node_key_of(&e.to) as u128;
    assert(from <= 0x4_0000_0000 && to <= 0x4_0000_0000);
    assert(from * 0x80_0000_0000 <= 0x4_0000_0000 * 0x80_0000_0000) by (nonlinear_arith)
        requires
            from <= 0x4_0000_0000,
    ;
    from * 0x80_0000_0000 + to * 16 + rank
}

proof fn lemma_split_unique(a: int, b: int, a2: int, b2: int, c: int)
    by (nonlinear_arith)
    requires
        c > 0,
        0 <= b < c,
        0 <= b2 < c,
        a * c + b == a2 * c + b2,
    ensures
        a == a2,
        b == b2,
{
}

/// Different edges have different keys.
pub proof fn lemma_edge_key_injective(a: SalsaSemanticGraphEdgeSummary, b: SalsaSemanticGraphEdgeSummary)
    ensures
        edge_key(a) == edge_key(b) ==> a == b,
{
    if edge_key(a) == edge_key(b) {
        assert(0 <= node_key(a.to) * 16 + edge_kind_rank(a.kind) < 0x80_0000_0000);
        assert(0 <= node_key(b.to) * 16 + edge_kind_rank(b.kind) < 0x80_0000_0000);
        lemma_split_unique(
            node_key(a.from),
            node_key(a.to) * 16 + edge_kind_rank(a.kind),
            node_key(b.from),
            node_key(b.to) * 16 + edge_kind_rank(b.kind),
            0x80_0000_0000,
        );
        lemma_split_unique(node_key(a.to), edge_kind_rank(a.kind), node_key(b.to), edge_kind_rank(b.kind), 16);
        lemma_node_key_injective(a.from, b.from);
        lemma_node_key_injective(a.to, b.to);
    }
}

pub open spec fn edges_strictly_sorted(s: Seq<SalsaSemanticGraphEdgeSummary>) -> bool {
    forall|i: int, j: int| 0 <= i < j < s.len() ==> edge_key(s[i]) < edge_key(s[j])
}

/// Inserts `x` into a vector of edges in strictly increasing order, unless it is there.
pub fn insert_edge_sorted_unique(v: &mut Vec<SalsaSemanticGraphEdgeSummary>, x: SalsaSemanticGraphEdgeSummary)
    requires
        edges_strictly_sorted(old(v)@),
    ensures
        edges_strictly_sorted(final(v)@),
        forall|y: SalsaSemanticGraphEdgeSummary| #[trigger] final(v)@.contains(y) <==> (old(v)@.contains(y) || y == x),
{
    let kx = edge_key_of(&x);
    let mut i: usize = 0;
    while i < v.len() && edge_key_of(&v[i]) < kx
        invariant
            i <= v.len(),
            v@ == old(v)@,
            kx == edge_key(x),
            edges_strictly_sorted(v@),
            forall|k: int| 0 <= k < i ==> edge_key(v@[k]) < edge_key(x),
        decreases v.len() - i,
    {
        i = i + 1;
    }
    if i < v.len() && edge_key_of(&v[i]) == kx {
        proof { lemma_edge_key_injective(v@[i as int], x); }
        assert(v@.contains(x)) by { assert(v@[i as int] == x); }
        return;
    }
    let ghost old_v = v@;
    assert(forall|k: int| i <= k < old_v.len() ==> edge_key(old_v[k]) > edge_key(x)) by {
        if i < old_v.len() {
            assert(edge_key(old_v[i as int]) > edge_key(x));
        }
    }
    v.insert(i, x);
    assert(edges_strictly_sorted(v@)) by {
        assert forall|a: int, b: int| 0 <= a < b < v@.len() implies edge_key(v@[a]) < edge_key(v@[b]) by {
            if b < i {
                assert(v@[a] == old_v[a] && v@[b] == old_v[b]);
            } else if b == i {
                assert(v@[a] == old_v[a]);
            } else if a < i {
                assert(v@[a] == old_v[a] && v@[b] == old_v[b - 1]);
            } else if a == i {
                assert(v@[b] == old_v[b - 1]);
            } else {
                assert(v@[a] == old_v[a - 1] && v@[b] == old_v[b - 1]);
            }
        }
    }
    assert forall|y: SalsaSemanticGraphEdgeSummary| v@.contains(y) <==> (old_v.contains(y) || y == x) by {
        if v@.contains(y) {
            let k = choose|k: int| 0 <= k < v@.len() && v@[k] == y;
            if k < i { assert(old_v[k] == y); }
            else if k > i { assert(old_v[k - 1] == y); }
        }
        if old_v.contains(y) {
            let k = choose|k: int| 0 <= k < old_v.len() && old_v[k] == y;
            if k < i { assert(v@[k] == y); } else { assert(v@[k + 1] == y); }
        }
        if y == x { assert(v@[i as int] == x); }
    }
}

/// Whether `nodes` holds `n`.
fn holds_node(nodes: &Vec<SalsaSemanticGraphNodeSummary>, n: SalsaSemanticGraphNodeSummary) -> (r: bool)
    ensures
        r == nodes@.contains(n),
{
    let mut i: usize = 0;
    while i < nodes.len()
        invariant
            i <= nodes@.len(),
            forall|j: int| 0 <= j < i ==> nodes@[j] != n,
        decreases nodes@.len() - i,
    {
        if nodes[i] == n {
            assert(nodes@[i as int] == n);
            return true;
        }
        i = i + 1;
    }
    false
}

/// The member use at an offset, as the use index finds it.
pub open spec fn member_use_at(use_sites: SalsaUseSiteIndexSummary, offset: u32) -> Option<SalsaMemberUseSummary> {
    opt_at(use_sites.members@, use_at_index(use_sites.members@, offset))
}

/// The name use at an offset, as the use index finds it.
pub open spec fn name_use_at(use_sites: SalsaUseSiteIndexSummary, offset: u32) -> Option<SalsaNameUseSummary> {
    opt_at(use_sites.names@, use_at_index(use_sites.names@, offset))
}

/// The local declaration that the name at an offset refers to, if any.
pub open spec fn local_decl_at(use_sites: SalsaUseSiteIndexSummary, offset: u32) -> Option<u32> {
    match name_use_at(use_sites, offset) {
        Some(u) => match u.resolution {
            SalsaNameUseResolutionSummary::LocalDecl(d) => Some(d),
            SalsaNameUseResolutionSummary::Global => None,
        },
        None => None,
    }
}

/// The graph node of the member used at an offset, when it is a node of the graph.
pub open spec fn member_node_at(
    use_sites: SalsaUseSiteIndexSummary,
    offset: u32,
    nodes: Seq<SalsaSemanticGraphNodeSummary>,
) -> Option<SalsaSemanticGraphNodeSummary> {
    match member_use_at(use_sites, offset) {
        Some(m) => if nodes.contains(SalsaSemanticGraphNodeSummary::MemberValue(m.target)) {
            Some(SalsaSemanticGraphNodeSummary::MemberValue(m.target))
        } else {
            None
        },
        None => None,
    }
}

/// Whether `e` is an edge that the initializer at `offset` of `to` adds: from
/// the member it reads, when that member is a node; else from the local
/// declaration it names, and from the signatures that the call there resolves
/// to or may call.
pub open spec fn spec_initializer_edge(
    to: SalsaSemanticGraphNodeSummary,
    offset: u32,
    use_sites: SalsaUseSiteIndexSummary,
    calls: SalsaSignatureExplainIndex,
    nodes: Seq<SalsaSemanticGraphNodeSummary>,
    e: SalsaSemanticGraphEdgeSummary,
) -> bool {
    match member_node_at(use_sites, offset, nodes) {
        Some(m) => e == SalsaSemanticGraphEdgeSummary {
            from: m,
            to,
            kind: SalsaSemanticGraphEdgeKindSummary::InitializerMember,
        },
        None => {
            &&& e.to == to
            &&& nodes.contains(e.from)
            &&& {
                ||| (e.kind == SalsaSemanticGraphEdgeKindSummary::InitializerDecl && match local_decl_at(use_sites, offset) {
                    Some(d) => e.from == SalsaSemanticGraphNodeSummary::DeclValue(d),
                    None => false,
                })
                ||| (e.kind == SalsaSemanticGraphEdgeKindSummary::InitializerResolvedCallReturn && match spec_find_call_explain_at(calls, offset) {
                    Some(c) => match c.resolved_signature_offset {
                        Some(r) => e.from == SalsaSemanticGraphNodeSummary::SignatureReturn(r),
                        None => false,
                    },
                    None => false,
                })
                ||| (e.kind == SalsaSemanticGraphEdgeKindSummary::InitializerCandidateCallReturn && match spec_find_call_explain_at(calls, offset) {
                    Some(c) => match e.from {
                        SalsaSemanticGraphNodeSummary::SignatureReturn(s) => c.candidate_signature_offsets.contains(s),
                        _ => false,
                    },
                    None => false,
                })
            }
        },
    }
}

/// Adds the edges that the initializer at `offset` of `to` shows.
fn build_initializer_edges_for_value_expr(
    to: SalsaSemanticGraphNodeSummary,
    offset: u32,
    use_sites: &SalsaUseSiteIndexSummary,
    calls: &SalsaSignatureExplainIndex,
    nodes: &Vec<SalsaSemanticGraphNodeSummary>,
    edges: &mut Vec<SalsaSemanticGraphEdgeSummary>,
)
    requires
        edges_strictly_sorted(old(edges)@),
    ensures
        edges_strictly_sorted(final(edges)@),
        forall|e: SalsaSemanticGraphEdgeSummary| #[trigger] final(edges)@.contains(e) <==> (old(edges)@.contains(e)
            || spec_initializer_edge(to, offset, *use_sites, *calls, nodes@, e)),
{
    if let Some(member_use) = find_member_use_at(use_sites, offset) {
        let dependency = SalsaSemanticGraphNodeSummary::MemberValue(member_use.target);
        if holds_node(nodes, dependency) {
            insert_edge_sorted_unique(
                edges,
                SalsaSemanticGraphEdgeSummary {
                    from: dependency,
                    to,
                    kind: SalsaSemanticGraphEdgeKindSummary::InitializerMember,
                },
            );
            return;
        }
    }
    let ghost start = edges@;
    let call = find_call_explain_at(calls, offset);
    if let Some(c) = &call {
        if let Some(resolved) = c.resolved_signature_offset {
            let dependency = SalsaSemanticGraphNodeSummary::SignatureReturn(resolved);
            if holds_node(nodes, dependency) {
                insert_edge_sorted_unique(
                    edges,
                    SalsaSemanticGraphEdgeSummary {
                        from: dependency,
                        to,
                        kind: SalsaSemanticGraphEdgeKindSummary::InitializerResolvedCallReturn,
                    },
                );
            }
        }
        let ghost after_resolved = edges@;
        let candidates = &c.candidate_signature_offsets;
        let mut i: usize = 0;
        while i < candidates.len()
            invariant
                i <= candidates@.len(),
                edges_strictly_sorted(edges@),
                forall|e: SalsaSemanticGraphEdgeSummary| #[trigger] edges@.contains(e) <==> (after_resolved.contains(e) || (
                    e.to == to && nodes@.contains(e.from)
                        && e.kind == SalsaSemanticGraphEdgeKindSummary::InitializerCandidateCallReturn
                        && match e.from {
                            SalsaSemanticGraphNodeSummary::SignatureReturn(s) => candidates@.take(i as int).contains(s),
                            _ => false,
                        })),
            decreases candidates@.len() - i,
        {
            let dependency = SalsaSemanticGraphNodeSummary::SignatureReturn(candidates[i]);
            let ghost before = edges@;
            if holds_node(nodes, dependency) {
                insert_edge_sorted_unique(
                    edges,
                    SalsaSemanticGraphEdgeSummary {
                        from: dependency,
                        to,
                        kind: SalsaSemanticGraphEdgeKindSummary::InitializerCandidateCallReturn,
                    },
                );
            }
            assert(candidates@.take(i + 1) == candidates@.take(i as int).push(candidates@[i as int]));
            assert forall|e: SalsaSemanticGraphEdgeSummary| #[trigger] edges@.contains(e) <==> (after_resolved.contains(e) || (
                e.to == to && nodes@.contains(e.from)
                    && e.kind == SalsaSemanticGraphEdgeKindSummary::InitializerCandidateCallReturn
                    && match e.from {
                        SalsaSemanticGraphNodeSummary::SignatureReturn(s) => candidates@.take(i + 1).contains(s),
                        _ => false,
                    })) by {
                match e.from {
                    SalsaSemanticGraphNodeSummary::SignatureReturn(s) => {
                        let ghost t0 = candidates@.take(i as int);
                        let ghost t1 = candidates@.take(i + 1);
                        if s == candidates@[i as int] {
                            assert(t1[i as int] == s);
                        }
                        if t1.contains(s) && s != candidates@[i as int] {
                            let k = choose|k: int| 0 <= k < t1.len() && #[trigger] t1[k] == s;
                            assert(t0[k] == s);
                        }
                        if t0.contains(s) {
                            let k = choose|k: int| 0 <= k < t0.len() && #[trigger] t0[k] == s;
                            assert(t1[k] == s);
                        }
                    },
                    _ => {},
                }
            }
            i = i + 1;
        }
        assert(candidates@.take(candidates@.len() as int) == candidates@);
    }
    let ghost after_call = edges@;
    if let Some(name_use) = find_name_use_at(use_sites, offset) {
        if let SalsaNameUseResolutionSummary::LocalDecl(target) = name_use.resolution {
            let dependency = SalsaSemanticGraphNodeSummary::DeclValue(target);
            if holds_node(nodes, dependency) {
                insert_edge_sorted_unique(
                    edges,
                    SalsaSemanticGraphEdgeSummary {
                        from: dependency,
                        to,
                        kind: SalsaSemanticGraphEdgeKindSummary::InitializerDecl,
                    },
                );
            }
        }
    }
    assert(member_node_at(*use_sites, offset, nodes@).is_none());
    assert(opt_call_view(call) == spec_find_call_explain_at(*calls, offset));
}

/// Whether `e` is an edge that a returned value of the signature `from` adds:
/// to the member it reads, when that member is a node, else to the local
/// declaration it names; and to the signatures that its call resolves to or may call.
pub open spec fn spec_return_value_edge(
    from: SalsaSemanticGraphNodeSummary,
    value: SalsaSignatureReturnValueSummary,
    use_sites: SalsaUseSiteIndexSummary,
    nodes: Seq<SalsaSemanticGraphNodeSummary>,
    e: SalsaSemanticGraphEdgeSummary,
) -> bool {
    ||| match member_node_at(use_sites, value.expr_offset, nodes) {
        Some(m) => e == SalsaSemanticGraphEdgeSummary {
            from,
            to: m,
            kind: SalsaSemanticGraphEdgeKindSummary::SignatureReturnMember,
        },
        None => match local_decl_at(use_sites, value.expr_offset) {
            Some(d) => nodes.contains(SalsaSemanticGraphNodeSummary::DeclValue(d)) && e
                == SalsaSemanticGraphEdgeSummary {
                from,
                to: SalsaSemanticGraphNodeSummary::DeclValue(d),
                kind: SalsaSemanticGraphEdgeKindSummary::SignatureReturnDecl,
            },
            None => false,
        },
    }
    ||| match value.call {
        Some(c) => {
            &&& e.from == from
            &&& nodes.contains(e.to)
            &&& {
                ||| (e.kind == SalsaSemanticGraphEdgeKindSummary::ResolvedCallReturn && match c.resolved_signature_offset {
                    Some(r) => e.to == SalsaSemanticGraphNodeSummary::SignatureReturn(r),
                    None => false,
                })
                ||| (e.kind == SalsaSemanticGraphEdgeKindSummary::CandidateCallReturn && match e.to {
                    SalsaSemanticGraphNodeSummary::SignatureReturn(s) => c.candidate_signature_offsets@.contains(s),
                    _ => false,
                })
            }
        },
        None => false,
    }
}

/// Adds the edges that a returned value of the signature `from` shows.
fn build_signature_return_edges_for_value_expr(
    from: SalsaSemanticGraphNodeSummary,
    value: &SalsaSignatureReturnValueSummary,
    use_sites: &SalsaUseSiteIndexSummary,
    nodes: &Vec<SalsaSemanticGraphNodeSummary>,
    edges: &mut Vec<SalsaSemanticGraphEdgeSummary>,
)
    requires
        edges_strictly_sorted(old(edges)@),
    ensures
        edges_strictly_sorted(final(edges)@),
        forall|e: SalsaSemanticGraphEdgeSummary| #[trigger] final(edges)@.contains(e) <==> (old(edges)@.contains(e)
            || spec_return_value_edge(from, *value, *use_sites, nodes@, e)),
{
    let offset = value.expr_offset;
    let mut member_hit = false;
    if let Some(member_use) = find_member_use_at(use_sites, offset) {
        let to = SalsaSemanticGraphNodeSummary::MemberValue(member_use.target);
        if holds_node(nodes, to) {
            insert_edge_sorted_unique(
                edges,
                SalsaSemanticGraphEdgeSummary { from, to, kind: SalsaSemanticGraphEdgeKindSummary::SignatureReturnMember },
            );
            member_hit = true;
        }
    }
    if !member_hit {
        if let Some(name_use) = find_name_use_at(use_sites, offset) {
            if let SalsaNameUseResolutionSummary::LocalDecl(target) = name_use.resolution {
                let to = SalsaSemanticGraphNodeSummary::DeclValue(target);
                if holds_node(nodes, to) {
                    insert_edge_sorted_unique(
                        edges,
                        SalsaSemanticGraphEdgeSummary { from, to, kind: SalsaSemanticGraphEdgeKindSummary::SignatureReturnDecl },
                    );
                }
            }
        }
    }
    let ghost after_use = edges@;
    assert(forall|e: SalsaSemanticGraphEdgeSummary| #[trigger] after_use.contains(e) <==> (old(edges)@.contains(e) || (
        match member_node_at(*use_sites, value.expr_offset, nodes@) {
            Some(m) => e == SalsaSemanticGraphEdgeSummary {
                from,
                to: m,
                kind: SalsaSemanticGraphEdgeKindSummary::SignatureReturnMember,
            },
            None => match local_decl_at(*use_sites, value.expr_offset) {
                Some(d) => nodes@.contains(SalsaSemanticGraphNodeSummary::DeclValue(d)) && e
                    == SalsaSemanticGraphEdgeSummary {
                    from,
                    to: SalsaSemanticGraphNodeSummary::DeclValue(d),
                    kind: SalsaSemanticGraphEdgeKindSummary::SignatureReturnDecl,
                },
                None => false,
            },
        })));
    if let Some(c) = &value.call {
        if let Some(resolved) = c.resolved_signature_offset {
            let to = SalsaSemanticGraphNodeSummary::SignatureReturn(resolved);
            if holds_node(nodes, to) {
                insert_edge_sorted_unique(
                    edges,
                    SalsaSemanticGraphEdgeSummary { from, to, kind: SalsaSemanticGraphEdgeKindSummary::ResolvedCallReturn },
                );
            }
        }
        let ghost after_resolved = edges@;
        let candidates = &c.candidate_signature_offsets;
        let mut i: usize = 0;
        while i < candidates.len()
            invariant
                i <= candidates@.len(),
                edges_strictly_sorted(edges@),
                forall|e: SalsaSemanticGraphEdgeSummary| #[trigger] edges@.contains(e) <==> (after_resolved.contains(e) || (
                    e.from == from && nodes@.contains(e.to)
                        && e.kind == SalsaSemanticGraphEdgeKindSummary::CandidateCallReturn
                        && match e.to {
                            SalsaSemanticGraphNodeSummary::SignatureReturn(s) => candidates@.take(i as int).contains(s),
                            _ => false,
                        })),
            decreases candidates@.len() - i,
        {
            let to = SalsaSemanticGraphNodeSummary::SignatureReturn(candidates[i]);
            if holds_node(nodes, to) {
                insert_edge_sorted_unique(
                    edges,
                    SalsaSemanticGraphEdgeSummary { from, to, kind: SalsaSemanticGraphEdgeKindSummary::CandidateCallReturn },
                );
            }
            assert(candidates@.take(i + 1) == candidates@.take(i as int).push(candidates@[i as int]));
            proof {
                broadcast use vstd::seq_lib::lemma_seq_contains_after_push;
            }
            i = i + 1;
        }
        assert(candidates@.take(candidates@.len() as int) == candidates@);
    }
}

/// The node that a semantic target stands for.
pub open spec fn spec_target_node(t: SalsaSemanticTargetSummary) -> SalsaSemanticGraphNodeSummary {
    match t {
        SalsaSemanticTargetSummary::Decl(d) => SalsaSemanticGraphNodeSummary::DeclValue(d),
        SalsaSemanticTargetSummary::Member(m) => SalsaSemanticGraphNodeSummary::MemberValue(m),
        SalsaSemanticTargetSummary::Signature(s) => SalsaSemanticGraphNodeSummary::SignatureReturn(s),
    }
}

/// The node that a semantic target stands for.
pub fn semantic_target_node(t: Option<SalsaSemanticTargetSummary>) -> (r: Option<SalsaSemanticGraphNodeSummary>)
    ensures
        r == match t {
            Some(t) => Some(spec_target_node(t)),
            None => None,
        },
{
    match t {
        Some(SalsaSemanticTargetSummary::Decl(d)) => Some(SalsaSemanticGraphNodeSummary::DeclValue(d)),
        Some(SalsaSemanticTargetSummary::Member(m)) => Some(SalsaSemanticGraphNodeSummary::MemberValue(m)),
        Some(SalsaSemanticTargetSummary::Signature(s)) => Some(SalsaSemanticGraphNodeSummary::SignatureReturn(s)),
        None => None,
    }
}

/// The ids of declarations, in order.
pub open spec fn decl_ids(s: Seq<SalsaDeclSummary>) -> Seq<u32> {
    s.map_values(|d: SalsaDeclSummary| d.id)
}

/// The targets of members, in order.
pub open spec fn member_targets(s: Seq<SalsaMemberTypeInfoSummary>) -> Seq<u32> {
    s.map_values(|m: SalsaMemberTypeInfoSummary| m.target)
}

/// The offsets of signatures, in order.
pub open spec fn signature_offsets(s: Seq<SalsaSignatureSummary>) -> Seq<u32> {
    s.map_values(|g: SalsaSignatureSummary| g.syntax_offset)
}

/// The offsets of loops, in order.
pub open spec fn loop_offsets(s: Seq<SalsaForRangeIterQuerySummary>) -> Seq<u32> {
    s.map_values(|l: SalsaForRangeIterQuerySummary| l.loop_offset)
}

/// Whether `n` is a node for one of these declarations, members, signatures or
/// loops, or the module export when there is one.
pub open spec fn node_among(
    decls: Seq<u32>,
    members: Seq<u32>,
    signatures: Seq<u32>,
    loops: Seq<u32>,
    export: bool,
    n: SalsaSemanticGraphNodeSummary,
) -> bool {
    match n {
        SalsaSemanticGraphNodeSummary::DeclValue(d) => decls.contains(d),
        SalsaSemanticGraphNodeSummary::MemberValue(t) => members.contains(t),
        SalsaSemanticGraphNodeSummary::SignatureReturn(o) => signatures.contains(o),
        SalsaSemanticGraphNodeSummary::ForRangeIter(o) => loops.contains(o),
        SalsaSemanticGraphNodeSummary::ModuleExport => export,
    }
}

/// The nodes of a file's semantic graph.
pub open spec fn spec_graph_node(
    decl_tree: SalsaDeclTreeSummary,
    member_types: SalsaMemberTypeQueryIndex,
    signatures: SalsaSignatureIndexSummary,
    for_range_iters: SalsaForRangeIterQueryIndex,
    semantic: SalsaSingleFileSemanticSummary,
    n: SalsaSemanticGraphNodeSummary,
) -> bool {
    node_among(
        decl_ids(decl_tree.decls@),
        member_targets(member_types.members@),
        signature_offsets(signatures.signatures@),
        loop_offsets(for_range_iters.loops@),
        semantic.module_export.is_some(),
        n,
    )
}

/// The edge from the module export to the node it stands for, when that is a node.
pub open spec fn export_edge(
    semantic: SalsaSingleFileSemanticSummary,
    nodes: Seq<SalsaSemanticGraphNodeSummary>,
    e: SalsaSemanticGraphEdgeSummary,
) -> bool {
    match semantic.module_export {
        Some(me) => match me.semantic_target {
            Some(t) => nodes.contains(spec_target_node(t)) && e == SalsaSemanticGraphEdgeSummary {
                from: SalsaSemanticGraphNodeSummary::ModuleExport,
                to: spec_target_node(t),
                kind: SalsaSemanticGraphEdgeKindSummary::ExportTarget,
            },
            None => false,
        },
        None => false,
    }
}

/// An edge that the initializer of a declaration shows.
pub open spec fn decl_edge(
    d: SalsaDeclSummary,
    use_sites: SalsaUseSiteIndexSummary,
    calls: SalsaSignatureExplainIndex,
    nodes: Seq<SalsaSemanticGraphNodeSummary>,
    e: SalsaSemanticGraphEdgeSummary,
) -> bool {
    match d.value_expr_offset {
        Some(o) => spec_initializer_edge(SalsaSemanticGraphNodeSummary::DeclValue(d.id), o, use_sites, calls, nodes, e),
        None => false,
    }
}

/// An edge that the initializer of candidate `j` of a member shows.
pub open spec fn member_edge(
    m: SalsaMemberTypeInfoSummary,
    j: int,
    use_sites: SalsaUseSiteIndexSummary,
    calls: SalsaSignatureExplainIndex,
    nodes: Seq<SalsaSemanticGraphNodeSummary>,
    e: SalsaSemanticGraphEdgeSummary,
) -> bool {
    0 <= j < m.candidates@.len() && match m.candidates@[j].initializer_offset {
        Some(o) => spec_initializer_edge(SalsaSemanticGraphNodeSummary::MemberValue(m.target), o, use_sites, calls, nodes, e),
        None => false,
    }
}

/// An edge that iterated expression `j` of a loop shows.
pub open spec fn loop_edge(
    l: SalsaForRangeIterQuerySummary,
    j: int,
    use_sites: SalsaUseSiteIndexSummary,
    calls: SalsaSignatureExplainIndex,
    nodes: Seq<SalsaSemanticGraphNodeSummary>,
    e: SalsaSemanticGraphEdgeSummary,
) -> bool {
    0 <= j < l.iter_expr_offsets@.len() && spec_initializer_edge(
        SalsaSemanticGraphNodeSummary::ForRangeIter(l.loop_offset),
        l.iter_expr_offsets@[j],
        use_sites,
        calls,
        nodes,
        e,
    )
}

/// An edge that returned value `j` of a signature shows, as the signature's
/// first return summary lists its values.
pub open spec fn signature_edge(
    g: SalsaSignatureSummary,
    j: int,
    return_index: SalsaSignatureReturnQueryIndex,
    use_sites: SalsaUseSiteIndexSummary,
    nodes: Seq<SalsaSemanticGraphNodeSummary>,
    e: SalsaSemanticGraphEdgeSummary,
) -> bool {
    match first_with_key(return_index.signatures@, g.syntax_offset) {
        Some(sr) => 0 <= j < sr.values@.len() && spec_return_value_edge(
            SalsaSemanticGraphNodeSummary::SignatureReturn(g.syntax_offset),
            sr.values@[j],
            use_sites,
            nodes,
            e,
        ),
        None => false,
    }
}

/// The edges of a file's semantic graph over the nodes `nodes`.
pub open spec fn spec_graph_edge(
    decl_tree: SalsaDeclTreeSummary,
    member_types: SalsaMemberTypeQueryIndex,
    signatures: SalsaSignatureIndexSummary,
    for_range_iters: SalsaForRangeIterQueryIndex,
    use_sites: SalsaUseSiteIndexSummary,
    calls: SalsaSignatureExplainIndex,
    return_index: SalsaSignatureReturnQueryIndex,
    semantic: SalsaSingleFileSemanticSummary,
    nodes: Seq<SalsaSemanticGraphNodeSummary>,
    e: SalsaSemanticGraphEdgeSummary,
) -> bool {
    ||| export_edge(semantic, nodes, e)
    ||| exists|i: int| 0 <= i < decl_tree.decls@.len() && #[trigger] decl_edge(decl_tree.decls@[i], use_sites, calls, nodes, e)
    ||| exists|i: int, j: int|
        0 <= i < member_types.members@.len() && #[trigger] member_edge(member_types.members@[i], j, use_sites, calls, nodes, e)
    ||| exists|i: int, j: int|
        0 <= i < for_range_iters.loops@.len() && #[trigger] loop_edge(for_range_iters.loops@[i], j, use_sites, calls, nodes, e)
    ||| exists|i: int, j: int|
        0 <= i < signatures.signatures@.len() && #[trigger] signature_edge(signatures.signatures@[i], j, return_index, use_sites, nodes, e)
}

fn build_graph_nodes(
    decl_tree: &SalsaDeclTreeSummary,
    member_types: &SalsaMemberTypeQueryIndex,
    signatures: &SalsaSignatureIndexSummary,
    for_range_iters: &SalsaForRangeIterQueryIndex,
    semantic: &SalsaSingleFileSemanticSummary,
) -> (r: Vec<SalsaSemanticGraphNodeSummary>)
    ensures
        nodes_strictly_sorted(r@),
        forall|n: SalsaSemanticGraphNodeSummary| #[trigger] r@.contains(n) <==> spec_graph_node(
            *decl_tree,
            *member_types,
            *signatures,
            *for_range_iters,
            *semantic,
            n,
        ),
{
    broadcast use vstd::seq_lib::lemma_seq_contains_after_push;

    let ghost e: Seq<u32> = Seq::empty();
    let mut v: Vec<SalsaSemanticGraphNodeSummary> = Vec::new();
    let ds = &decl_tree.decls;
    let mut i: usize = 0;
    while i < ds.len()
        invariant
            i <= ds@.len(),
            nodes_strictly_sorted(v@),
            forall|n: SalsaSemanticGraphNodeSummary| #[trigger] v@.contains(n) <==> node_among(decl_ids(ds@.take(i as int)), e, e, e, false, n),
        decreases ds@.len() - i,
    {
        let ghost prev = decl_ids(ds@.take(i as int));
        assert(decl_ids(ds@.take(i + 1)) =~= decl_ids(ds@.take(i as int)).push(ds@[i as int].id));
        let ghost before = v@;
        insert_node_sorted_unique(&mut v, SalsaSemanticGraphNodeSummary::DeclValue(ds[i].id));
        assert forall|n: SalsaSemanticGraphNodeSummary| #[trigger] v@.contains(n) <==> node_among(prev.push(ds@[i as int].id), e, e, e, false, n) by {
            assert(v@.contains(n) <==> (before.contains(n) || n == SalsaSemanticGraphNodeSummary::DeclValue(ds@[i as int].id)));
            match n {
                SalsaSemanticGraphNodeSummary::DeclValue(d) => {
                    vstd::seq_lib::lemma_seq_contains_after_push(prev, ds@[i as int].id, d);
                },
                _ => {},
            }
        }
        i = i + 1;
    }
    assert(ds@.take(ds@.len() as int) == ds@);
    let ghost dv = decl_ids(ds@);
    let ms = &member_types.members;
    let mut i: usize = 0;
    while i < ms.len()
        invariant
            i <= ms@.len(),
            nodes_strictly_sorted(v@),
            forall|n: SalsaSemanticGraphNodeSummary| #[trigger] v@.contains(n) <==> node_among(dv, member_targets(ms@.take(i as int)), e, e, false, n),
        decreases ms@.len() - i,
    {
        let ghost prev = member_targets(ms@.take(i as int));
        assert(member_targets(ms@.take(i + 1)) =~= member_targets(ms@.take(i as int)).push(ms@[i as int].target));
        let ghost before = v@;
        insert_node_sorted_unique(&mut v, SalsaSemanticGraphNodeSummary::MemberValue(ms[i].target));
        assert forall|n: SalsaSemanticGraphNodeSummary| #[trigger] v@.contains(n) <==> node_among(dv, prev.push(ms@[i as int].target), e, e, false, n) by {
            assert(v@.contains(n) <==> (before.contains(n) || n == SalsaSemanticGraphNodeSummary::MemberValue(ms@[i as int].target)));
            match n {
                SalsaSemanticGraphNodeSummary::MemberValue(d) => {
                    vstd::seq_lib::lemma_seq_contains_after_push(prev, ms@[i as int].target, d);
                },
                _ => {},
            }
        }
        i = i + 1;
    }
    assert(ms@.take(ms@.len() as int) == ms@);
    let ghost mv = member_targets(ms@);
    let gs = &signatures.signatures;
    let mut i: usize = 0;
    while i < gs.len()
        invariant
            i <= gs@.len(),
            nodes_strictly_sorted(v@),
            forall|n: SalsaSemanticGraphNodeSummary| #[trigger] v@.contains(n) <==> node_among(dv, mv, signature_offsets(gs@.take(i as int)), e, false, n),
        decreases gs@.len() - i,
    {
        let ghost prev = signature_offsets(gs@.take(i as int));
        assert(signature_offsets(gs@.take(i + 1)) =~= signature_offsets(gs@.take(i as int)).push(gs@[i as int].syntax_offset));
        let ghost before = v@;
        insert_node_sorted_unique(&mut v, SalsaSemanticGraphNodeSummary::SignatureReturn(gs[i].syntax_offset));
        assert forall|n: SalsaSemanticGraphNodeSummary| #[trigger] v@.contains(n) <==> node_among(dv, mv, prev.push(gs@[i as int].syntax_offset), e, false, n) by {
            assert(v@.contains(n) <==> (before.contains(n) || n == SalsaSemanticGraphNodeSummary::SignatureReturn(gs@[i as int].syntax_offset)));
            match n {
                SalsaSemanticGraphNodeSummary::SignatureReturn(d) => {
                    vstd::seq_lib::lemma_seq_contains_after_push(prev, gs@[i as int].syntax_offset, d);
                },
                _ => {},
            }
        }
        i = i + 1;
    }
    assert(gs@.take(gs@.len() as int) == gs@);
    let ghost sv = signature_offsets(gs@);
    let ls = &for_range_iters.loops;
    let mut i: usize = 0;
    while i < ls.len()
        invariant
            i <= ls@.len(),
            nodes_strictly_sorted(v@),
            forall|n: SalsaSemanticGraphNodeSummary| #[trigger] v@.contains(n) <==> node_among(dv, mv, sv, loop_offsets(ls@.take(i as int)), false, n),
        decreases ls@.len() - i,
    {
        let ghost prev = loop_offsets(ls@.take(i as int));
        assert(loop_offsets(ls@.take(i + 1)) =~= loop_offsets(ls@.take(i as int)).push(ls@[i as int].loop_offset));
        let ghost before = v@;
        insert_node_sorted_unique(&mut v, SalsaSemanticGraphNodeSummary::ForRangeIter(ls[i].loop_offset));
        assert forall|n: SalsaSemanticGraphNodeSummary| #[trigger] v@.contains(n) <==> node_among(dv, mv, sv, prev.push(ls@[i as int].loop_offset), false, n) by {
            assert(v@.contains(n) <==> (before.contains(n) || n == SalsaSemanticGraphNodeSummary::ForRangeIter(ls@[i as int].loop_offset)));
            match n {
                SalsaSemanticGraphNodeSummary::ForRangeIter(d) => {
                    vstd::seq_lib::lemma_seq_contains_after_push(prev, ls@[i as int].loop_offset, d);
                },
                _ => {},
            }
        }
        i = i + 1;
    }
    assert(ls@.take(ls@.len() as int) == ls@);
    if semantic.module_export.is_some() {
        insert_node_sorted_unique(&mut v, SalsaSemanticGraphNodeSummary::ModuleExport);
    }
    v
}

fn build_decl_initializer_edges(
    decl_tree: &SalsaDeclTreeSummary,
    use_sites: &SalsaUseSiteIndexSummary,
    calls: &SalsaSignatureExplainIndex,
    nodes: &Vec<SalsaSemanticGraphNodeSummary>,
    edges: &mut Vec<SalsaSemanticGraphEdgeSummary>,
)
    requires
        edges_strictly_sorted(old(edges)@),
    ensures
        edges_strictly_sorted(final(edges)@),
        forall|e: SalsaSemanticGraphEdgeSummary| #[trigger] final(edges)@.contains(e) <==> (old(edges)@.contains(e)
            || exists|i: int| 0 <= i < decl_tree.decls@.len() && #[trigger] decl_edge(decl_tree.decls@[i], *use_sites, *calls, nodes@, e)),
{
    let ghost start = edges@;
    let ds = &decl_tree.decls;
    let mut k: usize = 0;
    while k < ds.len()
        invariant
            k <= ds@.len(),
            edges_strictly_sorted(edges@),
            forall|e: SalsaSemanticGraphEdgeSummary| #[trigger] edges@.contains(e) <==> (start.contains(e)
                || exists|i: int| 0 <= i < k && #[trigger] decl_edge(ds@[i], *use_sites, *calls, nodes@, e)),
        decreases ds@.len() - k,
    {
        let ghost before = edges@;
        if let Some(o) = ds[k].value_expr_offset {
            build_initializer_edges_for_value_expr(SalsaSemanticGraphNodeSummary::DeclValue(ds[k].id), o, use_sites, calls, nodes, edges);
        }
        assert forall|e: SalsaSemanticGraphEdgeSummary| #[trigger] edges@.contains(e) <==> (start.contains(e)
            || exists|i: int| 0 <= i < k + 1 && #[trigger] decl_edge(ds@[i], *use_sites, *calls, nodes@, e)) by {
            assert(edges@.contains(e) <==> (before.contains(e) || decl_edge(ds@[k as int], *use_sites, *calls, nodes@, e)));
        }
        k = k + 1;
    }
}

fn build_member_initializer_edges(
    member_types: &SalsaMemberTypeQueryIndex,
    use_sites: &SalsaUseSiteIndexSummary,
    calls: &SalsaSignatureExplainIndex,
    nodes: &Vec<SalsaSemanticGraphNodeSummary>,
    edges: &mut Vec<SalsaSemanticGraphEdgeSummary>,
)
    requires
        edges_strictly_sorted(old(edges)@),
    ensures
        edges_strictly_sorted(final(edges)@),
        forall|e: SalsaSemanticGraphEdgeSummary| #[trigger] final(edges)@.contains(e) <==> (old(edges)@.contains(e)
            || exists|i: int, j: int| 0 <= i < member_types.members@.len()
                && #[trigger] member_edge(member_types.members@[i], j, *use_sites, *calls, nodes@, e)),
{
    let ghost start = edges@;
    let ms = &member_types.members;
    let mut k: usize = 0;
    while k < ms.len()
        invariant
            k <= ms@.len(),
            edges_strictly_sorted(edges@),
            forall|e: SalsaSemanticGraphEdgeSummary| #[trigger] edges@.contains(e) <==> (start.contains(e)
                || exists|i: int, j: int| 0 <= i < k && #[trigger] member_edge(ms@[i], j, *use_sites, *calls, nodes@, e)),
        decreases ms@.len() - k,
    {
        let ghost at_member = edges@;
        let m = &ms[k];
        let mut c: usize = 0;
        while c < m.candidates.len()
            invariant
                k < ms@.len(),
                *m == ms@[k as int],
                c <= m.candidates@.len(),
                edges_strictly_sorted(edges@),
                forall|e: SalsaSemanticGraphEdgeSummary| #[trigger] edges@.contains(e) <==> (at_member.contains(e)
                    || exists|j: int| 0 <= j < c && #[trigger] member_edge(ms@[k as int], j, *use_sites, *calls, nodes@, e)),
            decreases m.candidates@.len() - c,
        {
            let ghost before = edges@;
            if let Some(o) = m.candidates[c].initializer_offset {
                build_initializer_edges_for_value_expr(SalsaSemanticGraphNodeSummary::MemberValue(m.target), o, use_sites, calls, nodes, edges);
            }
            assert forall|e: SalsaSemanticGraphEdgeSummary| #[trigger] edges@.contains(e) <==> (at_member.contains(e)
                || exists|j: int| 0 <= j < c + 1 && #[trigger] member_edge(ms@[k as int], j, *use_sites, *calls, nodes@, e)) by {
                assert(edges@.contains(e) <==> (before.contains(e) || member_edge(ms@[k as int], c as int, *use_sites, *calls, nodes@, e)));
            }
            c = c + 1;
        }
        assert forall|e: SalsaSemanticGraphEdgeSummary| #[trigger] edges@.contains(e) <==> (start.contains(e)
            || exists|i: int, j: int| 0 <= i < k + 1 && #[trigger] member_edge(ms@[i], j, *use_sites, *calls, nodes@, e)) by {
            if exists|i: int, j: int| 0 <= i < k + 1 && #[trigger] member_edge(ms@[i], j, *use_sites, *calls, nodes@, e) {
                let (i, j) = choose|i: int, j: int| 0 <= i < k + 1 && #[trigger] member_edge(ms@[i], j, *use_sites, *calls, nodes@, e);
                if i == k {
                    assert(0 <= j < m.candidates@.len());
                }
            }
        }
        k = k + 1;
    }
}

fn build_for_range_iter_edges(
    for_range_iters: &SalsaForRangeIterQueryIndex,
    use_sites: &SalsaUseSiteIndexSummary,
    calls: &SalsaSignatureExplainIndex,
    nodes: &Vec<SalsaSemanticGraphNodeSummary>,
    edges: &mut Vec<SalsaSemanticGraphEdgeSummary>,
)
    requires
        edges_strictly_sorted(old(edges)@),
    ensures
        edges_strictly_sorted(final(edges)@),
        forall|e: SalsaSemanticGraphEdgeSummary| #[trigger] final(edges)@.contains(e) <==> (old(edges)@.contains(e)
            || exists|i: int, j: int| 0 <= i < for_range_iters.loops@.len()
                && #[trigger] loop_edge(for_range_iters.loops@[i], j, *use_sites, *calls, nodes@, e)),
{
    let ghost start = edges@;
    let ls = &for_range_iters.loops;
    let mut k: usize = 0;
    while k < ls.len()
        invariant
            k <= ls@.len(),
            edges_strictly_sorted(edges@),
            forall|e: SalsaSemanticGraphEdgeSummary| #[trigger] edges@.contains(e) <==> (start.contains(e)
                || exists|i: int, j: int| 0 <= i < k && #[trigger] loop_edge(ls@[i], j, *use_sites, *calls, nodes@, e)),
        decreases ls@.len() - k,
    {
        let ghost at_loop = edges@;
        let l = &ls[k];
        let mut c: usize = 0;
        while c < l.iter_expr_offsets.len()
            invariant
                k < ls@.len(),
                *l == ls@[k as int],
                c <= l.iter_expr_offsets@.len(),
                edges_strictly_sorted(edges@),
                forall|e: SalsaSemanticGraphEdgeSummary| #[trigger] edges@.contains(e) <==> (at_loop.contains(e)
                    || exists|j: int| 0 <= j < c && #[trigger] loop_edge(ls@[k as int], j, *use_sites, *calls, nodes@, e)),
            decreases l.iter_expr_offsets@.len() - c,
        {
            let ghost before = edges@;
            build_initializer_edges_for_value_expr(
                SalsaSemanticGraphNodeSummary::ForRangeIter(l.loop_offset),
                l.iter_expr_offsets[c],
                use_sites,
                calls,
                nodes,
                edges,
            );
            assert forall|e: SalsaSemanticGraphEdgeSummary| #[trigger] edges@.contains(e) <==> (at_loop.contains(e)
                || exists|j: int| 0 <= j < c + 1 && #[trigger] loop_edge(ls@[k as int], j, *use_sites, *calls, nodes@, e)) by {
                assert(edges@.contains(e) <==> (before.contains(e) || loop_edge(ls@[k as int], c as int, *use_sites, *calls, nodes@, e)));
            }
            c = c + 1;
        }
        assert forall|e: SalsaSemanticGraphEdgeSummary| #[trigger] edges@.contains(e) <==> (start.contains(e)
            || exists|i: int, j: int| 0 <= i < k + 1 && #[trigger] loop_edge(ls@[i], j, *use_sites, *calls, nodes@, e)) by {
            if exists|i: int, j: int| 0 <= i < k + 1 && #[trigger] loop_edge(ls@[i], j, *use_sites, *calls, nodes@, e) {
                let (i, j) = choose|i: int, j: int| 0 <= i < k + 1 && #[trigger] loop_edge(ls@[i], j, *use_sites, *calls, nodes@, e);
                if i == k {
                    assert(0 <= j < l.iter_expr_offsets@.len());
                }
            }
        }
        k = k + 1;
    }
}

fn add_signature_edges(
    signatures: &SalsaSignatureIndexSummary,
    return_index: &SalsaSignatureReturnQueryIndex,
    use_sites: &SalsaUseSiteIndexSummary,
    nodes: &Vec<SalsaSemanticGraphNodeSummary>,
    edges: &mut Vec<SalsaSemanticGraphEdgeSummary>,
)
    requires
        edges_strictly_sorted(old(edges)@),
    ensures
        edges_strictly_sorted(final(edges)@),
        forall|e: SalsaSemanticGraphEdgeSummary| #[trigger] final(edges)@.contains(e) <==> (old(edges)@.contains(e)
            || exists|i: int, j: int| 0 <= i < signatures.signatures@.len()
                && #[trigger] signature_edge(signatures.signatures@[i], j, *return_index, *use_sites, nodes@, e)),
{
    let ghost start = edges@;
    let gs = &signatures.signatures;
    let mut k: usize = 0;
    while k < gs.len()
        invariant
            k <= gs@.len(),
            edges_strictly_sorted(edges@),
            forall|e: SalsaSemanticGraphEdgeSummary| #[trigger] edges@.contains(e) <==> (start.contains(e)
                || exists|i: int, j: int| 0 <= i < k && #[trigger] signature_edge(gs@[i], j, *return_index, *use_sites, nodes@, e)),
        decreases gs@.len() - k,
    {
        let ghost at_signature = edges@;
        let from = SalsaSemanticGraphNodeSummary::SignatureReturn(gs[k].syntax_offset);
        match find_signature_return_query_at(return_index, gs[k].syntax_offset) {
            None => {
                assert forall|e: SalsaSemanticGraphEdgeSummary| #[trigger] edges@.contains(e) <==> (start.contains(e)
                    || exists|i: int, j: int| 0 <= i < k + 1 && #[trigger] signature_edge(gs@[i], j, *return_index, *use_sites, nodes@, e)) by {
                    if exists|i: int, j: int| 0 <= i < k + 1 && #[trigger] signature_edge(gs@[i], j, *return_index, *use_sites, nodes@, e) {
                        let (i, j) = choose|i: int, j: int| 0 <= i < k + 1 && #[trigger] signature_edge(gs@[i], j, *return_index, *use_sites, nodes@, e);
                        assert(i != k);
                    }
                }
            },
            Some(sr) => {
                let values = &sr.values;
                let mut c: usize = 0;
                while c < values.len()
                    invariant
                        k < gs@.len(),
                        first_with_key(return_index.signatures@, gs@[k as int].syntax_offset) == Some(*sr),
                        *values == sr.values,
                        from == SalsaSemanticGraphNodeSummary::SignatureReturn(gs@[k as int].syntax_offset),
                        c <= values@.len(),
                        edges_strictly_sorted(edges@),
                        forall|e: SalsaSemanticGraphEdgeSummary| #[trigger] edges@.contains(e) <==> (at_signature.contains(e)
                            || exists|j: int| 0 <= j < c && #[trigger] signature_edge(gs@[k as int], j, *return_index, *use_sites, nodes@, e)),
                    decreases values@.len() - c,
                {
                    let ghost before = edges@;
                    build_signature_return_edges_for_value_expr(from, &values[c], use_sites, nodes, edges);
                    assert forall|e: SalsaSemanticGraphEdgeSummary| #[trigger] edges@.contains(e) <==> (at_signature.contains(e)
                        || exists|j: int| 0 <= j < c + 1 && #[trigger] signature_edge(gs@[k as int], j, *return_index, *use_sites, nodes@, e)) by {
                        assert(edges@.contains(e) <==> (before.contains(e) || signature_edge(gs@[k as int], c as int, *return_index, *use_sites, nodes@, e)));
                    }
                    c = c + 1;
                }
                assert forall|e: SalsaSemanticGraphEdgeSummary| #[trigger] edges@.contains(e) <==> (start.contains(e)
                    || exists|i: int, j: int| 0 <= i < k + 1 && #[trigger] signature_edge(gs@[i], j, *return_index, *use_sites, nodes@, e)) by {
                    if exists|i: int, j: int| 0 <= i < k + 1 && #[trigger] signature_edge(gs@[i], j, *return_index, *use_sites, nodes@, e) {
                        let (i, j) = choose|i: int, j: int| 0 <= i < k + 1 && #[trigger] signature_edge(gs@[i], j, *return_index, *use_sites, nodes@, e);
                        if i == k {
                            assert(0 <= j < values@.len());
                        }
                    }
                }
            },
        }
        k = k + 1;
    }
}

/// Builds the semantic graph of a file. Its nodes are one for each declaration,
/// member, signature and `for ... in` loop, and the module export when the file
/// has one, in node order and each once. Its edges, in edge order and each once,
/// lead from the module export to the node it stands for; from what an
/// initializer of a declaration or member, or an iterated expression of a loop,
/// reads or calls to that value; and from a signature to what its returned
/// values read or call. An edge only joins nodes of the graph.
pub fn build_semantic_graph_summary(
    decl_tree: &SalsaDeclTreeSummary,
    member_types: &SalsaMemberTypeQueryIndex,
    signatures: &SalsaSignatureIndexSummary,
    for_range_iters: &SalsaForRangeIterQueryIndex,
    use_sites: &SalsaUseSiteIndexSummary,
    signature_explain_index: &SalsaSignatureExplainIndex,
    signature_returns: &SalsaSignatureReturnQueryIndex,
    semantic: &SalsaSingleFileSemanticSummary,
) -> (r: SalsaSemanticGraphSummary)
    ensures
        nodes_strictly_sorted(r.nodes@),
        edges_strictly_sorted(r.edges@),
        forall|n: SalsaSemanticGraphNodeSummary| #[trigger] r.nodes@.contains(n) <==> spec_graph_node(
            *decl_tree,
            *member_types,
            *signatures,
            *for_range_iters,
            *semantic,
            n,
        ),
        forall|e: SalsaSemanticGraphEdgeSummary| #[trigger] r.edges@.contains(e) <==> spec_graph_edge(
            *decl_tree,
            *member_types,
            *signatures,
            *for_range_iters,
            *use_sites,
            *signature_explain_index,
            *signature_returns,
            *semantic,
            r.nodes@,
            e,
        ),
{
    let nodes = build_graph_nodes(decl_tree, member_types, signatures, for_range_iters, semantic);
    let mut edges: Vec<SalsaSemanticGraphEdgeSummary> = Vec::new();
    if let Some(module_export) = &semantic.module_export {
        if let Some(target) = semantic_target_node(module_export.semantic_target) {
            if holds_node(&nodes, target) {
                insert_edge_sorted_unique(
                    &mut edges,
                    SalsaSemanticGraphEdgeSummary {
                        from: SalsaSemanticGraphNodeSummary::ModuleExport,
                        to: target,
                        kind: SalsaSemanticGraphEdgeKindSummary::ExportTarget,
                    },
                );
            }
        }
    }
    assert(forall|e: SalsaSemanticGraphEdgeSummary| #[trigger] edges@.contains(e) <==> export_edge(*semantic, nodes@, e));
    build_decl_initializer_edges(decl_tree, use_sites, signature_explain_index, &nodes, &mut edges);
    build_member_initializer_edges(member_types, use_sites, signature_explain_index, &nodes, &mut edges);
    build_for_range_iter_edges(for_range_iters, use_sites, signature_explain_index, &nodes, &mut edges);
    add_signature_edges(signatures, signature_returns, use_sites, &nodes, &mut edges);
    SalsaSemanticGraphSummary { nodes, edges }
}

} // verus!
