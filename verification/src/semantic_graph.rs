//! The semantic dependency graph of a file: which values depend on which, its
//! strongly connected components and an order in which to solve them.
use vstd::prelude::*;

use crate::lexical::lemma_filter_take_step;

verus! {

/// A value in the semantic graph.
#[derive(Clone, Copy, Debug, PartialEq, Eq, Structural)]
pub enum SalsaSemanticGraphNodeSummary {
    /// The value of a declaration, by its id.
    DeclValue(u32),
    /// The value of a member, by its target handle.
    MemberValue(u32),
    /// The return values of a signature, by its offset.
    SignatureReturn(u32),
    /// The iteration variables of a `for ... in` loop, by its offset.
    ForRangeIter(u32),
    /// The value that the module returns.
    ModuleExport,
}

#[derive(Clone, Copy, Debug, PartialEq, Eq, Structural)]
pub enum SalsaSemanticGraphEdgeKindSummary {
    ExportTarget,
    SignatureReturnMember,
    SignatureReturnDecl,
    ResolvedCallReturn,
    CandidateCallReturn,
    InitializerMember,
    InitializerDecl,
    InitializerResolvedCallReturn,
    InitializerCandidateCallReturn,
}

#[derive(Clone, Copy, Debug, PartialEq, Eq, Structural)]
pub struct SalsaSemanticGraphEdgeSummary {
    pub from: SalsaSemanticGraphNodeSummary,
    pub to: SalsaSemanticGraphNodeSummary,
    pub kind: SalsaSemanticGraphEdgeKindSummary,
}

#[derive(Clone, Debug)]
pub struct SalsaSemanticGraphSummary {
    pub nodes: Vec<SalsaSemanticGraphNodeSummary>,
    pub edges: Vec<SalsaSemanticGraphEdgeSummary>,
}

/// A strongly connected component of the semantic graph.
#[derive(Clone, Debug)]
pub struct SalsaSemanticGraphSccComponentSummary {
    pub component_id: usize,
    pub nodes: Vec<SalsaSemanticGraphNodeSummary>,
    pub successor_component_ids: Vec<usize>,
    pub predecessor_component_ids: Vec<usize>,
    pub is_cycle: bool,
}

/// The components of the semantic graph, an order that solves each component
/// after those it depends on, and the component of each node.
#[derive(Clone, Debug)]
pub struct SalsaSemanticGraphSccIndex {
    pub components: Vec<SalsaSemanticGraphSccComponentSummary>,
    pub topo_order: Vec<usize>,
    pub node_order: Vec<SalsaSemanticGraphNodeSummary>,
    pub node_component_ids: Vec<usize>,
}

} // verus!

verus! {

/// The order of nodes: by variant, in declaration order, then by the number each holds.
pub open spec fn node_key(n: SalsaSemanticGraphNodeSummary) -> int {
    match n {
        SalsaSemanticGraphNodeSummary::DeclValue(x) => x as int,
        SalsaSemanticGraphNodeSummary::MemberValue(x) => 0x1_0000_0000 + x,
        SalsaSemanticGraphNodeSummary::SignatureReturn(x) => 0x2_0000_0000 + x,
        SalsaSemanticGraphNodeSummary::ForRangeIter(x) => 0x3_0000_0000 + x,
        SalsaSemanticGraphNodeSummary::ModuleExport => 0x4_0000_0000,
    }
}

pub fn node_key_of(n: &SalsaSemanticGraphNodeSummary) -> (r: u64)
    ensures
        r == node_key(*n),
{
    match n {
        SalsaSemanticGraphNodeSummary::DeclValue(x) => *x as u64,
        SalsaSemanticGraphNodeSummary::MemberValue(x) => 0x1_0000_0000u64 + *x as u64,
        SalsaSemanticGraphNodeSummary::SignatureReturn(x) => 0x2_0000_0000u64 + *x as u64,
        SalsaSemanticGraphNodeSummary::ForRangeIter(x) => 0x3_0000_0000u64 + *x as u64,
        SalsaSemanticGraphNodeSummary::ModuleExport => 0x4_0000_0000u64,
    }
}

/// Different nodes have different keys.
pub proof fn lemma_node_key_injective(a: SalsaSemanticGraphNodeSummary, b: SalsaSemanticGraphNodeSummary)
    ensures
        node_key(a) == node_key(b) ==> a == b,
{
}

pub open spec fn nodes_strictly_sorted(s: Seq<SalsaSemanticGraphNodeSummary>) -> bool {
    forall|i: int, j: int| 0 <= i < j < s.len() ==> node_key(s[i]) < node_key(s[j])
}

pub open spec fn nodes_sorted(s: Seq<SalsaSemanticGraphNodeSummary>) -> bool {
    forall|i: int, j: int| 0 <= i < j < s.len() ==> node_key(s[i]) <= node_key(s[j])
}

/// Inserts `x` into a vector of nodes in strictly increasing order, unless it is there.
pub fn insert_node_sorted_unique(v: &mut Vec<SalsaSemanticGraphNodeSummary>, x: SalsaSemanticGraphNodeSummary)
    requires
        nodes_strictly_sorted(old(v)@),
    ensures
        nodes_strictly_sorted(final(v)@),
        forall|y: SalsaSemanticGraphNodeSummary| final(v)@.contains(y) <==> (old(v)@.contains(y) || y == x),
{
    let kx = node_key_of(&x);
    let mut i: usize = 0;
    while i < v.len() && node_key_of(&v[i]) < kx
        invariant
            i <= v.len(),
            v@ == old(v)@,
            kx == node_key(x),
            nodes_strictly_sorted(v@),
            forall|k: int| 0 <= k < i ==> node_key(v@[k]) < node_key(x),
        decreases v.len() - i,
    {
        i = i + 1;
    }
    if i < v.len() && node_key_of(&v[i]) == kx {
        proof { lemma_node_key_injective(v@[i as int], x); }
        assert(v@.contains(x)) by { assert(v@[i as int] == x); }
        return;
    }
    let ghost old_v = v@;
    assert(forall|k: int| i <= k < old_v.len() ==> node_key(old_v[k]) > node_key(x)) by {
        if i < old_v.len() {
            assert(node_key(old_v[i as int]) > node_key(x));
        }
    }
    v.insert(i, x);
    assert(nodes_strictly_sorted(v@)) by {
        assert forall|a: int, b: int| 0 <= a < b < v@.len() implies node_key(v@[a]) < node_key(v@[b]) by {
            if b < i {
                assert(v@[a] == old_v[a] && v@[b] == old_v[b]);
            } else if b == i {
                assert(v@[a] == old_v[a]);
            } else if a < i {
                assert(v@[a] == old_v[a] && v@[b] == old_v[b - 1]);
            } else if a == i {
                assert(v@[b] == old_v[b - 1]);
            } else {
                assert(v@[a] == old_v[a - 1] && v@[b] == old_v[b - 1]);
            }
        }
    }
    assert forall|y: SalsaSemanticGraphNodeSummary| v@.contains(y) <==> (old_v.contains(y) || y == x) by {
        if v@.contains(y) {
            let k = choose|k: int| 0 <= k < v@.len() && v@[k] == y;
            if k < i { assert(old_v[k] == y); }
            else if k > i { assert(old_v[k - 1] == y); }
        }
        if old_v.contains(y) {
            let k = choose|k: int| 0 <= k < old_v.len() && old_v[k] == y;
            if k < i { assert(v@[k] == y); } else { assert(v@[k + 1] == y); }
        }
        if y == x { assert(v@[i as int] == x); }
    }
}

/// The semantic graph, found by edge ends, and its strongly connected components.
#[derive(Clone, Debug)]
pub struct SalsaSemanticGraphQueryIndex {
    pub graph: SalsaSemanticGraphSummary,
    pub scc: SalsaSemanticGraphSccIndex,
}

/// The edges that leave `from`, in edge order.
pub fn collect_outgoing_semantic_graph_edges(
    index: &SalsaSemanticGraphQueryIndex,
    from: &SalsaSemanticGraphNodeSummary,
) -> (r: Vec<SalsaSemanticGraphEdgeSummary>)
    ensures
        r@ == index.graph.edges@.filter(|e: SalsaSemanticGraphEdgeSummary| e.from == *from),
{
    let ghost edges = index.graph.edges@;
    let mut r: Vec<SalsaSemanticGraphEdgeSummary> = Vec::new();
    let mut i: usize = 0;
    while i < index.graph.edges.len()
        invariant
            edges == index.graph.edges@,
            i <= edges.len(),
            r@ == edges.take(i as int).filter(|e: SalsaSemanticGraphEdgeSummary| e.from == *from),
        decreases edges.len() - i,
    {
        proof { lemma_filter_take_step(edges, |e: SalsaSemanticGraphEdgeSummary| e.from == *from, i as int); }
        let e = index.graph.edges[i];
        if e.from == *from {
            r.push(e);
        }
        i = i + 1;
    }
    assert(edges.take(i as int) =~= edges);
    r
}

/// The edges that enter `to`, in edge order.
pub fn collect_incoming_semantic_graph_edges(
    index: &SalsaSemanticGraphQueryIndex,
    to: &SalsaSemanticGraphNodeSummary,
) -> (r: Vec<SalsaSemanticGraphEdgeSummary>)
    ensures
        r@ == index.graph.edges@.filter(|e: SalsaSemanticGraphEdgeSummary| e.to == *to),
{
    let ghost edges = index.graph.edges@;
    let mut r: Vec<SalsaSemanticGraphEdgeSummary> = Vec::new();
    let mut i: usize = 0;
    while i < index.graph.edges.len()
        invariant
            edges == index.graph.edges@,
            i <= edges.len(),
            r@ == edges.take(i as int).filter(|e: SalsaSemanticGraphEdgeSummary| e.to == *to),
        decreases edges.len() - i,
    {
        proof { lemma_filter_take_step(edges, |e: SalsaSemanticGraphEdgeSummary| e.to == *to, i as int); }
        let e = index.graph.edges[i];
        if e.to == *to {
            r.push(e);
        }
        i = i + 1;
    }
    assert(edges.take(i as int) =~= edges);
    r
}

/// The nodes that edges from `from` lead to, each once, in node order.
pub fn collect_semantic_graph_successor_nodes(
    index: &SalsaSemanticGraphQueryIndex,
    from: &SalsaSemanticGraphNodeSummary,
) -> (r: Vec<SalsaSemanticGraphNodeSummary>)
    ensures
        nodes_strictly_sorted(r@),
        forall|x: SalsaSemanticGraphNodeSummary|
            r@.contains(x) <==> (exists|k: int|
                0 <= k < index.graph.edges@.len() && (#[trigger] index.graph.edges@[k]).from == *from
                    && index.graph.edges@[k].to == x),
{
    let ghost edges = index.graph.edges@;
    let mut r: Vec<SalsaSemanticGraphNodeSummary> = Vec::new();
    let mut i: usize = 0;
    while i < index.graph.edges.len()
        invariant
            edges == index.graph.edges@,
            i <= edges.len(),
            nodes_strictly_sorted(r@),
            forall|x: SalsaSemanticGraphNodeSummary|
                r@.contains(x) <==> (exists|k: int| 0 <= k < i && (#[trigger] edges[k]).from == *from && edges[k].to == x),
        decreases edges.len() - i,
    {
        let e = index.graph.edges[i];
        let ghost before = r@;
        if e.from == *from {
            insert_node_sorted_unique(&mut r, e.to);
        }
        assert forall|x: SalsaSemanticGraphNodeSummary|
            r@.contains(x) <==> (exists|k: int| 0 <= k < i + 1 && (#[trigger] edges[k]).from == *from && edges[k].to == x) by {
            if exists|k: int| 0 <= k < i + 1 && (#[trigger] edges[k]).from == *from && edges[k].to == x {
                let k = choose|k: int| 0 <= k < i + 1 && (#[trigger] edges[k]).from == *from && edges[k].to == x;
                if k < i {
                    assert(before.contains(x));
                }
            }
        }
        i = i + 1;
    }
    r
}

/// The nodes whose edges lead to `to`, each once, in node order.
pub fn collect_semantic_graph_predecessor_nodes(
    index: &SalsaSemanticGraphQueryIndex,
    to: &SalsaSemanticGraphNodeSummary,
) -> (r: Vec<SalsaSemanticGraphNodeSummary>)
    ensures
        nodes_strictly_sorted(r@),
        forall|x: SalsaSemanticGraphNodeSummary|
            r@.contains(x) <==> (exists|k: int|
                0 <= k < index.graph.edges@.len() && (#[trigger] index.graph.edges@[k]).to == *to
                    && index.graph.edges@[k].from == x),
{
    let ghost edges = index.graph.edges@;
    let mut r: Vec<SalsaSemanticGraphNodeSummary> = Vec::new();
    let mut i: usize = 0;
    while i < index.graph.edges.len()
        invariant
            edges == index.graph.edges@,
            i <= edges.len(),
            nodes_strictly_sorted(r@),
            forall|x: SalsaSemanticGraphNodeSummary|
                r@.contains(x) <==> (exists|k: int| 0 <= k < i && (#[trigger] edges[k]).to == *to && edges[k].from == x),
        decreases edges.len() - i,
    {
        let e = index.graph.edges[i];
        let ghost before = r@;
        if e.to == *to {
            insert_node_sorted_unique(&mut r, e.from);
        }
        assert forall|x: SalsaSemanticGraphNodeSummary|
            r@.contains(x) <==> (exists|k: int| 0 <= k < i + 1 && (#[trigger] edges[k]).to == *to && edges[k].from == x) by {
            if exists|k: int| 0 <= k < i + 1 && (#[trigger] edges[k]).to == *to && edges[k].from == x {
                let k = choose|k: int| 0 <= k < i + 1 && (#[trigger] edges[k]).to == *to && edges[k].from == x;
                if k < i {
                    assert(before.contains(x));
                }
            }
        }
        i = i + 1;
    }
    r
}

} // verus!
