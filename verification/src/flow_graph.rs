//! Queries over the flow graph: neighbours, reachability, and the local graphs
//! of conditions, branches, loops and jumps.
use vstd::prelude::*;

use crate::flow::{SalsaFlowEdgeKindSummary, SalsaFlowEdgeSummary, SalsaFlowNodeRefSummary, SalsaFlowQuerySummary};
use crate::flow_model::{SalsaFlowSummary, spec_find_condition, spec_find_branch, spec_find_loop, find_condition, find_branch, find_loop};
use crate::flow::{spec_clause_block_offsets, clause_block_offsets};

verus! {

/// The targets of the edges that leave `n`, in edge order.
pub open spec fn spec_successors(edges: Seq<SalsaFlowEdgeSummary>, n: SalsaFlowNodeRefSummary) -> Seq<SalsaFlowNodeRefSummary>
    decreases edges.len(),
{
    if edges.len() == 0 {
        seq![]
    } else {
        let rest = spec_successors(edges.drop_last(), n);
        if edges.last().from == n { rest.push(edges.last().to) } else { rest }
    }
}

/// The edges that leave `n`, in edge order.
pub open spec fn spec_outgoing(edges: Seq<SalsaFlowEdgeSummary>, n: SalsaFlowNodeRefSummary) -> Seq<SalsaFlowEdgeSummary>
    decreases edges.len(),
{
    if edges.len() == 0 {
        seq![]
    } else {
        let rest = spec_outgoing(edges.drop_last(), n);
        if edges.last().from == n { rest.push(edges.last()) } else { rest }
    }
}

/// The sources of the edges that enter `n`, in edge order.
pub open spec fn spec_predecessors(edges: Seq<SalsaFlowEdgeSummary>, n: SalsaFlowNodeRefSummary) -> Seq<SalsaFlowNodeRefSummary>
    decreases edges.len(),
{
    if edges.len() == 0 {
        seq![]
    } else {
        let rest = spec_predecessors(edges.drop_last(), n);
        if edges.last().to == n { rest.push(edges.last().from) } else { rest }
    }
}

/// The edges that enter `n`, in edge order.
pub open spec fn spec_incoming(edges: Seq<SalsaFlowEdgeSummary>, n: SalsaFlowNodeRefSummary) -> Seq<SalsaFlowEdgeSummary>
    decreases edges.len(),
{
    if edges.len() == 0 {
        seq![]
    } else {
        let rest = spec_incoming(edges.drop_last(), n);
        if edges.last().to == n { rest.push(edges.last()) } else { rest }
    }
}

/// The targets of the edges of kind `kind` that leave `n`, in edge order.
pub open spec fn spec_successors_by_kind(
    edges: Seq<SalsaFlowEdgeSummary>,
    n: SalsaFlowNodeRefSummary,
    kind: SalsaFlowEdgeKindSummary,
) -> Seq<SalsaFlowNodeRefSummary>
    decreases edges.len(),
{
    if edges.len() == 0 {
        seq![]
    } else {
        let rest = spec_successors_by_kind(edges.drop_last(), n, kind);
        if edges.last().from == n && edges.last().kind == kind { rest.push(edges.last().to) } else { rest }
    }
}

/// The nodes of `nodes` without repeats, each where it first occurs.
pub open spec fn spec_unique(nodes: Seq<SalsaFlowNodeRefSummary>) -> Seq<SalsaFlowNodeRefSummary>
    decreases nodes.len(),
{
    if nodes.len() == 0 {
        seq![]
    } else {
        let rest = spec_unique(nodes.drop_last());
        if rest.contains(nodes.last()) { rest } else { rest.push(nodes.last()) }
    }
}

/// Collects the targets of the edges that leave `node`.
pub fn collect_successor_nodes(query: &SalsaFlowQuerySummary, node: &SalsaFlowNodeRefSummary) -> (r: Vec<SalsaFlowNodeRefSummary>)
    ensures
        r@ == spec_successors(query.edges@, *node),
{
    let mut r: Vec<SalsaFlowNodeRefSummary> = Vec::new();
    let mut i: usize = 0;
    while i < query.edges.len()
        invariant
            i <= query.edges@.len(),
            r@ == spec_successors(query.edges@.take(i as int), *node),
        decreases query.edges@.len() - i,
    {
        assert(query.edges@.take(i + 1).drop_last() =~= query.edges@.take(i as int));
        if query.edges[i].from == *node {
            r.push(query.edges[i].to);
        }
        i = i + 1;
    }
    assert(query.edges@.take(i as int) =~= query.edges@);
    r
}

/// Collects the edges that leave `node`.
pub fn collect_outgoing_edges(query: &SalsaFlowQuerySummary, node: &SalsaFlowNodeRefSummary) -> (r: Vec<SalsaFlowEdgeSummary>)
    ensures
        r@ == spec_outgoing(query.edges@, *node),
{
    let mut r: Vec<SalsaFlowEdgeSummary> = Vec::new();
    let mut i: usize = 0;
    while i < query.edges.len()
        invariant
            i <= query.edges@.len(),
            r@ == spec_outgoing(query.edges@.take(i as int), *node),
        decreases query.edges@.len() - i,
    {
        assert(query.edges@.take(i + 1).drop_last() =~= query.edges@.take(i as int));
        if query.edges[i].from == *node {
            r.push(query.edges[i]);
        }
        i = i + 1;
    }
    assert(query.edges@.take(i as int) =~= query.edges@);
    r
}

/// Collects the sources of the edges that enter `node`.
pub fn collect_predecessor_nodes(query: &SalsaFlowQuerySummary, node: &SalsaFlowNodeRefSummary) -> (r: Vec<SalsaFlowNodeRefSummary>)
    ensures
        r@ == spec_predecessors(query.edges@, *node),
{
    let mut r: Vec<SalsaFlowNodeRefSummary> = Vec::new();
    let mut i: usize = 0;
    while i < query.edges.len()
        invariant
            i <= query.edges@.len(),
            r@ == spec_predecessors(query.edges@.take(i as int), *node),
        decreases query.edges@.len() - i,
    {
        assert(query.edges@.take(i + 1).drop_last() =~= query.edges@.take(i as int));
        if query.edges[i].to == *node {
            r.push(query.edges[i].from);
        }
        i = i + 1;
    }
    assert(query.edges@.take(i as int) =~= query.edges@);
    r
}

/// Collects the edges that enter `node`.
pub fn collect_incoming_edges(query: &SalsaFlowQuerySummary, node: &SalsaFlowNodeRefSummary) -> (r: Vec<SalsaFlowEdgeSummary>)
    ensures
        r@ == spec_incoming(query.edges@, *node),
{
    let mut r: Vec<SalsaFlowEdgeSummary> = Vec::new();
    let mut i: usize = 0;
    while i < query.edges.len()
        invariant
            i <= query.edges@.len(),
            r@ == spec_incoming(query.edges@.take(i as int), *node),
        decreases query.edges@.len() - i,
    {
        assert(query.edges@.take(i + 1).drop_last() =~= query.edges@.take(i as int));
        if query.edges[i].to == *node {
            r.push(query.edges[i]);
        }
        i = i + 1;
    }
    assert(query.edges@.take(i as int) =~= query.edges@);
    r
}

/// Collects the targets of the edges of kind `kind` that leave `node`.
pub fn collect_successor_nodes_by_kind(
    query: &SalsaFlowQuerySummary,
    node: &SalsaFlowNodeRefSummary,
    kind: SalsaFlowEdgeKindSummary,
) -> (r: Vec<SalsaFlowNodeRefSummary>)
    ensures
        r@ == spec_successors_by_kind(query.edges@, *node, kind),
{
    let mut r: Vec<SalsaFlowNodeRefSummary> = Vec::new();
    let mut i: usize = 0;
    while i < query.edges.len()
        invariant
            i <= query.edges@.len(),
            r@ == spec_successors_by_kind(query.edges@.take(i as int), *node, kind),
        decreases query.edges@.len() - i,
    {
        assert(query.edges@.take(i + 1).drop_last() =~= query.edges@.take(i as int));
        if query.edges[i].from == *node && query.edges[i].kind == kind {
            r.push(query.edges[i].to);
        }
        i = i + 1;
    }
    assert(query.edges@.take(i as int) =~= query.edges@);
    r
}

/// Whether `v` holds `n`.
pub fn contains_node(v: &Vec<SalsaFlowNodeRefSummary>, n: &SalsaFlowNodeRefSummary) -> (r: bool)
    ensures
        r == v@.contains(*n),
{
    let mut i: usize = 0;
    while i < v.len()
        invariant
            i <= v@.len(),
            forall|k: int| 0 <= k < i ==> v@[k] != *n,
        decreases v@.len() - i,
    {
        if v[i] == *n {
            assert(v@[i as int] == *n);
            return true;
        }
        i = i + 1;
    }
    false
}

/// The nodes of `nodes` without repeats, each where it first occurs.
pub fn unique_nodes(nodes: Vec<SalsaFlowNodeRefSummary>) -> (r: Vec<SalsaFlowNodeRefSummary>)
    ensures
        r@ == spec_unique(nodes@),
{
    let mut r: Vec<SalsaFlowNodeRefSummary> = Vec::new();
    let mut i: usize = 0;
    while i < nodes.len()
        invariant
            i <= nodes@.len(),
            r@ == spec_unique(nodes@.take(i as int)),
        decreases nodes@.len() - i,
    {
        assert(nodes@.take(i + 1).drop_last() =~= nodes@.take(i as int));
        if !contains_node(&r, &nodes[i]) {
            r.push(nodes[i]);
        }
        i = i + 1;
    }
    assert(nodes@.take(i as int) =~= nodes@);
    r
}

pub proof fn lemma_unique_props(nodes: Seq<SalsaFlowNodeRefSummary>)
    ensures
        spec_unique(nodes).no_duplicates(),
        forall|x: SalsaFlowNodeRefSummary| spec_unique(nodes).contains(x) <==> nodes.contains(x),
    decreases nodes.len(),
{
    if nodes.len() > 0 {
        lemma_unique_props(nodes.drop_last());
        let rest = spec_unique(nodes.drop_last());
        let l = nodes.last();
        let u = spec_unique(nodes);
        assert forall|x: SalsaFlowNodeRefSummary| u.contains(x) <==> nodes.contains(x) by {
            assert(rest.contains(x) <==> nodes.drop_last().contains(x));
            if u.contains(x) {
                let k = choose|k: int| 0 <= k < u.len() && u[k] == x;
                if k < rest.len() {
                    assert(rest[k] == x);
                    let j = choose|j: int| 0 <= j < nodes.drop_last().len() && nodes.drop_last()[j] == x;
                    assert(nodes[j] == x);
                } else {
                    assert(x == l);
                    assert(nodes[nodes.len() - 1] == x);
                }
            }
            if nodes.contains(x) {
                let k = choose|k: int| 0 <= k < nodes.len() && nodes[k] == x;
                if k < nodes.len() - 1 {
                    assert(nodes.drop_last()[k] == x);
                    assert(rest.contains(x));
                    let j = choose|j: int| 0 <= j < rest.len() && rest[j] == x;
                    assert(u[j] == x);
                } else if rest.contains(l) {
                    assert(x == l);
                } else {
                    assert(u[rest.len() as int] == x);
                }
            }
        }
    }
}

} // verus!

verus! {

/// Some edge leads from `a` to `b`.
pub open spec fn spec_has_edge(edges: Seq<SalsaFlowEdgeSummary>, a: SalsaFlowNodeRefSummary, b: SalsaFlowNodeRefSummary) -> bool {
    exists|k: int| 0 <= k < edges.len() && #[trigger] edges[k].from == a && edges[k].to == b
}

/// `p` follows edges from its first node to its last.
pub open spec fn spec_is_walk(edges: Seq<SalsaFlowEdgeSummary>, p: Seq<SalsaFlowNodeRefSummary>) -> bool {
    &&& p.len() >= 1
    &&& forall|i: int| 0 <= i < p.len() - 1 ==> spec_has_edge(edges, #[trigger] p[i], p[i + 1])
}

/// `b` can be reached from `a` by following one or more edges.
pub open spec fn spec_reaches(edges: Seq<SalsaFlowEdgeSummary>, a: SalsaFlowNodeRefSummary, b: SalsaFlowNodeRefSummary) -> bool {
    exists|p: Seq<SalsaFlowNodeRefSummary>| #[trigger] spec_is_walk(edges, p) && p.len() >= 2 && p[0] == a && p.last() == b
}

pub open spec fn spec_targets(edges: Seq<SalsaFlowEdgeSummary>) -> Seq<SalsaFlowNodeRefSummary> {
    edges.map_values(|e: SalsaFlowEdgeSummary| e.to)
}

pub proof fn lemma_successors_are_edges(edges: Seq<SalsaFlowEdgeSummary>, n: SalsaFlowNodeRefSummary)
    ensures
        forall|x: SalsaFlowNodeRefSummary| spec_successors(edges, n).contains(x) <==> spec_has_edge(edges, n, x),
    decreases edges.len(),
{
    if edges.len() > 0 {
        lemma_successors_are_edges(edges.drop_last(), n);
        let rest = spec_successors(edges.drop_last(), n);
        let s = spec_successors(edges, n);
        assert forall|x: SalsaFlowNodeRefSummary| s.contains(x) <==> spec_has_edge(edges, n, x) by {
            assert(rest.contains(x) <==> spec_has_edge(edges.drop_last(), n, x));
            if s.contains(x) {
                let k = choose|k: int| 0 <= k < s.len() && s[k] == x;
                if k < rest.len() {
                    assert(rest[k] == x);
                    let j = choose|j: int| 0 <= j < edges.drop_last().len() && #[trigger] edges.drop_last()[j].from == n
                        && edges.drop_last()[j].to == x;
                    assert(edges[j].from == n && edges[j].to == x);
                } else {
                    assert(edges[edges.len() - 1].from == n && edges[edges.len() - 1].to == x);
                }
            }
            if spec_has_edge(edges, n, x) {
                let k = choose|k: int| 0 <= k < edges.len() && #[trigger] edges[k].from == n && edges[k].to == x;
                if k < edges.len() - 1 {
                    assert(edges.drop_last()[k].from == n && edges.drop_last()[k].to == x);
                    assert(rest.contains(x));
                    let j = choose|j: int| 0 <= j < rest.len() && rest[j] == x;
                    assert(s[j] == x);
                } else {
                    assert(s[rest.len() as int] == x);
                }
            }
        }
    }
}

/// A walk that starts inside a set closed under edges stays inside it.
pub proof fn lemma_closed_walk(
    edges: Seq<SalsaFlowEdgeSummary>,
    closed: Seq<SalsaFlowNodeRefSummary>,
    p: Seq<SalsaFlowNodeRefSummary>,
)
    requires
        spec_is_walk(edges, p),
        closed.contains(p[0]),
        forall|y: SalsaFlowNodeRefSummary, x: SalsaFlowNodeRefSummary|
            closed.contains(y) && #[trigger] spec_has_edge(edges, y, x) ==> closed.contains(x),
    ensures
        closed.contains(p.last()),
    decreases p.len(),
{
    if p.len() > 1 {
        let q = p.drop_last();
        assert forall|i: int| 0 <= i < q.len() - 1 implies spec_has_edge(edges, #[trigger] q[i], q[i + 1]) by {
            assert(q[i] == p[i] && q[i + 1] == p[i + 1]);
        }
        lemma_closed_walk(edges, closed, q);
        assert(spec_has_edge(edges, p[p.len() - 2], p[p.len() - 1]));
    }
}

/// A distinct sequence of edge targets is no longer than the edges.
pub proof fn lemma_distinct_targets_bound(edges: Seq<SalsaFlowEdgeSummary>, s: Seq<SalsaFlowNodeRefSummary>)
    requires
        s.no_duplicates(),
        forall|x: SalsaFlowNodeRefSummary| s.contains(x) ==> spec_targets(edges).contains(x),
    ensures
        s.len() <= edges.len(),
{
    let t = spec_targets(edges);
    s.unique_seq_to_set();
    t.lemma_cardinality_of_set();
    assert(s.to_set().subset_of(t.to_set()));
    vstd::set_lib::lemma_len_subset(s.to_set(), t.to_set());
}

/// The visited list after the successors `succs` of a dequeued node have been
/// looked at in order: each one that is neither `start` nor visited joins it.
pub open spec fn bfs_scan(
    succs: Seq<SalsaFlowNodeRefSummary>,
    start: SalsaFlowNodeRefSummary,
    visited: Seq<SalsaFlowNodeRefSummary>,
) -> Seq<SalsaFlowNodeRefSummary>
    decreases succs.len(),
{
    if succs.len() == 0 {
        visited
    } else {
        let v = bfs_scan(succs.drop_last(), start, visited);
        let x = succs.last();
        if x == start || v.contains(x) { v } else { v.push(x) }
    }
}

/// The visited list once the queue (`start`, then the visited nodes) has been
/// worked through from position `index`.
pub open spec fn bfs_from(
    edges: Seq<SalsaFlowEdgeSummary>,
    start: SalsaFlowNodeRefSummary,
    visited: Seq<SalsaFlowNodeRefSummary>,
    index: nat,
) -> Seq<SalsaFlowNodeRefSummary>
    decreases edges.len() + 1 - index,
{
    if index >= visited.len() + 1 || index > edges.len() {
        visited
    } else {
        let node = (seq![start] + visited)[index as int];
        bfs_from(edges, start, bfs_scan(spec_successors(edges, node), start, visited), index + 1)
    }
}

/// The nodes reachable from `start`, in breadth-first order of discovery: the
/// successors of `start` in edge order, then those of each discovered node in
/// turn, each node once and `start` never.
pub open spec fn spec_bfs_order(edges: Seq<SalsaFlowEdgeSummary>, start: SalsaFlowNodeRefSummary) -> Seq<SalsaFlowNodeRefSummary> {
    bfs_from(edges, start, Seq::empty(), 0)
}

/// Collects every node reachable from `start` by one or more edges, `start`
/// excepted, each once.
pub fn collect_reachable_nodes(query: &SalsaFlowQuerySummary, start: &SalsaFlowNodeRefSummary) -> (r: Vec<SalsaFlowNodeRefSummary>)
    ensures
        r@.no_duplicates(),
        forall|x: SalsaFlowNodeRefSummary| r@.contains(x) <==> (x != *start && spec_reaches(query.edges@, *start, x)),
        r@ == spec_bfs_order(query.edges@, *start),
{
    let ghost edges = query.edges@;
    let mut visited: Vec<SalsaFlowNodeRefSummary> = Vec::new();
    let mut queue: Vec<SalsaFlowNodeRefSummary> = Vec::new();
    queue.push(*start);
    let mut index: usize = 0;
    assert(queue@ =~= seq![*start] + visited@);
    while index < queue.len()
        invariant
            edges == query.edges@,
            queue@ == seq![*start] + visited@,
            visited@.no_duplicates(),
            !visited@.contains(*start),
            forall|x: SalsaFlowNodeRefSummary| visited@.contains(x) ==> spec_reaches(edges, *start, x),
            forall|x: SalsaFlowNodeRefSummary| visited@.contains(x) ==> spec_targets(edges).contains(x),
            visited@.len() <= edges.len(),
            index <= queue@.len(),
            forall|k: int, x: SalsaFlowNodeRefSummary| 0 <= k < index && #[trigger] spec_has_edge(edges, queue@[k], x)
                ==> x == *start || visited@.contains(x),
            bfs_from(edges, *start, visited@, index as nat) == spec_bfs_order(edges, *start),
        decreases edges.len() + 1 - index,
    {
        let node = queue[index];
        let ghost k0 = index as int;
        let ghost visited0 = visited@;
        index = index + 1;
        let succs = collect_successor_nodes(query, &node);
        proof { lemma_successors_are_edges(edges, node); }
        let mut j: usize = 0;
        while j < succs.len()
            invariant
                edges == query.edges@,
                succs@ == spec_successors(edges, node),
                forall|x: SalsaFlowNodeRefSummary| succs@.contains(x) <==> spec_has_edge(edges, node, x),
                node == queue@[k0],
                0 <= k0 < index,
                index as int == k0 + 1,
                node == *start || spec_reaches(edges, *start, node),
                queue@ == seq![*start] + visited@,
                visited@.no_duplicates(),
                !visited@.contains(*start),
                forall|x: SalsaFlowNodeRefSummary| visited@.contains(x) ==> spec_reaches(edges, *start, x),
                forall|x: SalsaFlowNodeRefSummary| visited@.contains(x) ==> spec_targets(edges).contains(x),
                visited@.len() <= edges.len(),
                index <= queue@.len(),
                j <= succs@.len(),
                forall|k: int, x: SalsaFlowNodeRefSummary| 0 <= k < k0 && #[trigger] spec_has_edge(edges, queue@[k], x)
                    ==> x == *start || visited@.contains(x),
                forall|m: int| 0 <= m < j ==> succs@[m] == *start || visited@.contains(succs@[m]),
                visited@ == bfs_scan(succs@.take(j as int), *start, visited0),
                bfs_from(edges, *start, visited0, k0 as nat) == spec_bfs_order(edges, *start),
                k0 < visited0.len() + 1,
            decreases succs@.len() - j,
        {
            let s = succs[j];
            assert(succs@.contains(s)) by { assert(succs@[j as int] == s); }
            assert(succs@.take(j + 1).drop_last() =~= succs@.take(j as int));
            assert(succs@.take(j + 1).last() == s);
            if s == *start || contains_node(&visited, &s) {
                j = j + 1;
                continue;
            }
            proof {
                // `s` is reached through `node`.
                assert(spec_has_edge(edges, node, s));
                if node == *start {
                    let p = seq![*start, s];
                    assert(spec_is_walk(edges, p));
                } else {
                    let p = choose|p: Seq<SalsaFlowNodeRefSummary>| #[trigger] spec_is_walk(edges, p) && p.len() >= 2
                        && p[0] == *start && p.last() == node;
                    let p2 = p.push(s);
                    assert forall|i: int| 0 <= i < p2.len() - 1 implies spec_has_edge(edges, #[trigger] p2[i], p2[i + 1]) by {
                        if i < p.len() - 1 {
                            assert(p2[i] == p[i] && p2[i + 1] == p[i + 1]);
                        } else {
                            assert(p2[i] == node && p2[i + 1] == s);
                        }
                    }
                    assert(spec_is_walk(edges, p2));
                }
                let kk = choose|kk: int| 0 <= kk < edges.len() && #[trigger] edges[kk].from == node && edges[kk].to == s;
                assert(spec_targets(edges)[kk] == s);
            }
            let ghost old_visited = visited@;
            visited.push(s);
            queue.push(s);
            proof {
                assert(queue@ =~= seq![*start] + visited@);
                assert forall|x: SalsaFlowNodeRefSummary| visited@.contains(x) implies old_visited.contains(x) || x == s by {
                    let m = choose|m: int| 0 <= m < visited@.len() && visited@[m] == x;
                    if m < old_visited.len() { assert(old_visited[m] == x); }
                }
                assert forall|x: SalsaFlowNodeRefSummary| old_visited.contains(x) implies visited@.contains(x) by {
                    let m = choose|m: int| 0 <= m < old_visited.len() && old_visited[m] == x;
                    assert(visited@[m] == x);
                }
                assert(visited@.no_duplicates()) by {
                    assert forall|a: int, b: int| 0 <= a < b < visited@.len() implies visited@[a] != visited@[b] by {
                        if b == visited@.len() - 1 {
                            assert(old_visited.contains(visited@[a])) by { assert(old_visited[a] == visited@[a]); }
                        }
                    }
                }
                lemma_distinct_targets_bound(edges, visited@);
                assert(visited@.contains(s)) by { assert(visited@[visited@.len() - 1] == s); }
                assert forall|m: int| 0 <= m < j + 1 implies succs@[m] == *start || visited@.contains(succs@[m]) by {
                    if m < j {
                        assert(succs@[m] == *start || old_visited.contains(succs@[m]));
                    }
                }
                assert forall|k: int, x: SalsaFlowNodeRefSummary| 0 <= k < k0 && #[trigger] spec_has_edge(edges, queue@[k], x)
                    implies x == *start || visited@.contains(x) by {
                    assert(queue@[k] == (seq![*start] + old_visited)[k]);
                }
            }
            j = j + 1;
        }
        proof {
            assert(succs@.take(j as int) =~= succs@);
            assert(node == (seq![*start] + visited0)[k0]);
            assert(bfs_from(edges, *start, visited0, k0 as nat) == bfs_from(
                edges,
                *start,
                bfs_scan(spec_successors(edges, node), *start, visited0),
                (k0 + 1) as nat,
            ));
            assert forall|k: int, x: SalsaFlowNodeRefSummary| 0 <= k < index && #[trigger] spec_has_edge(edges, queue@[k], x)
                implies x == *start || visited@.contains(x) by {
                if k == k0 {
                    assert(succs@.contains(x));
                    let m = choose|m: int| 0 <= m < succs@.len() && succs@[m] == x;
                }
            }
        }
    }
    proof {
        let closed = queue@;
        assert forall|y: SalsaFlowNodeRefSummary, x: SalsaFlowNodeRefSummary|
            closed.contains(y) && #[trigger] spec_has_edge(edges, y, x) implies closed.contains(x) by {
            let k = choose|k: int| 0 <= k < closed.len() && closed[k] == y;
            assert(x == *start || visited@.contains(x));
            if x == *start {
                assert(closed[0] == x);
            } else {
                let m = choose|m: int| 0 <= m < visited@.len() && visited@[m] == x;
                assert(closed[m + 1] == x);
            }
        }
        assert forall|x: SalsaFlowNodeRefSummary| (x != *start && spec_reaches(edges, *start, x)) implies visited@.contains(x) by {
            let p = choose|p: Seq<SalsaFlowNodeRefSummary>| #[trigger] spec_is_walk(edges, p) && p.len() >= 2
                && p[0] == *start && p.last() == x;
            assert(closed[0] == *start);
            lemma_closed_walk(edges, closed, p);
            let m = choose|m: int| 0 <= m < closed.len() && closed[m] == x;
            assert(m > 0);
            assert(visited@[m - 1] == x);
        }
    }
    visited
}

/// Whether `to` is `from` or can be reached from it.
pub fn can_reach_node(query: &SalsaFlowQuerySummary, from: &SalsaFlowNodeRefSummary, to: &SalsaFlowNodeRefSummary) -> (r: bool)
    ensures
        r == (*from == *to || spec_reaches(query.edges@, *from, *to)),
{
    if *from == *to {
        return true;
    }
    let reachable = collect_reachable_nodes(query, from);
    contains_node(&reachable, to)
}

} // verus!

verus! {

/// The targets of a condition tree on one outcome (`ConditionTrue` or
/// `ConditionFalse`): its own edges of that kind, or else those of the
/// conditions it enters, nested at most `fuel` deep.
pub open spec fn condition_targets_fuel(
    edges: Seq<SalsaFlowEdgeSummary>,
    c: u32,
    kind: SalsaFlowEdgeKindSummary,
    fuel: nat,
) -> Seq<SalsaFlowNodeRefSummary>
    decreases fuel, 0nat,
{
    let node = SalsaFlowNodeRefSummary::Condition(c);
    let direct = spec_successors_by_kind(edges, node, kind);
    if direct.len() > 0 {
        spec_unique(direct)
    } else if fuel == 0 {
        seq![]
    } else {
        spec_unique(entered_targets_fuel(edges,
            spec_successors_by_kind(edges, node, SalsaFlowEdgeKindSummary::ConditionEnter), kind, (fuel - 1) as nat))
    }
}

pub open spec fn entered_targets_fuel(
    edges: Seq<SalsaFlowEdgeSummary>,
    enters: Seq<SalsaFlowNodeRefSummary>,
    kind: SalsaFlowEdgeKindSummary,
    fuel: nat,
) -> Seq<SalsaFlowNodeRefSummary>
    decreases fuel, enters.len() + 1,
{
    if enters.len() == 0 {
        seq![]
    } else {
        entered_targets_fuel(edges, enters.drop_last(), kind, fuel) + match enters.last() {
            SalsaFlowNodeRefSummary::Condition(child) => condition_targets_fuel(edges, child, kind, fuel),
            _ => seq![],
        }
    }
}

/// The targets of the condition at `c` on one outcome. Entering nested conditions
/// more often than there are edges runs in a circle; the search stops there.
pub open spec fn spec_condition_targets(
    edges: Seq<SalsaFlowEdgeSummary>,
    c: u32,
    kind: SalsaFlowEdgeKindSummary,
) -> Seq<SalsaFlowNodeRefSummary> {
    condition_targets_fuel(edges, c, kind, edges.len())
}

/// Collects the targets of the condition at `c` on the outcome `kind`.
pub fn collect_condition_terminal_targets(
    query: &SalsaFlowQuerySummary,
    c: u32,
    kind: SalsaFlowEdgeKindSummary,
    fuel: usize,
) -> (r: Vec<SalsaFlowNodeRefSummary>)
    ensures
        r@ == condition_targets_fuel(query.edges@, c, kind, fuel as nat),
    decreases fuel,
{
    let node = SalsaFlowNodeRefSummary::Condition(c);
    let direct = collect_successor_nodes_by_kind(query, &node, kind);
    if direct.len() > 0 {
        return unique_nodes(direct);
    }
    if fuel == 0 {
        return Vec::new();
    }
    let enters = collect_successor_nodes_by_kind(query, &node, SalsaFlowEdgeKindSummary::ConditionEnter);
    let mut aggregated: Vec<SalsaFlowNodeRefSummary> = Vec::new();
    let mut i: usize = 0;
    while i < enters.len()
        invariant
            i <= enters@.len(),
            fuel > 0,
            aggregated@ == entered_targets_fuel(query.edges@, enters@.take(i as int), kind, (fuel - 1) as nat),
        decreases enters@.len() - i,
    {
        assert(enters@.take(i + 1).drop_last() =~= enters@.take(i as int));
        match enters[i] {
            SalsaFlowNodeRefSummary::Condition(child) => {
                let sub = collect_condition_terminal_targets(query, child, kind, fuel - 1);
                let mut k: usize = 0;
                let ghost before = aggregated@;
                while k < sub.len()
                    invariant
                        k <= sub@.len(),
                        aggregated@ == before + sub@.take(k as int),
                    decreases sub@.len() - k,
                {
                    aggregated.push(sub[k]);
                    assert(aggregated@ =~= before + sub@.take(k + 1));
                    k = k + 1;
                }
                assert(sub@.take(k as int) =~= sub@);
            },
            _ => {
                assert(aggregated@ + seq![] =~= aggregated@);
            },
        }
        i = i + 1;
    }
    assert(enters@.take(i as int) =~= enters@);
    unique_nodes(aggregated)
}

#[derive(Clone, Debug)]
pub struct SalsaFlowConditionGraphSummary {
    pub condition_node_offset: u32,
    pub syntax_offset: u32,
    pub kind: crate::flow_model::SalsaFlowConditionKindSummary,
    pub enter_targets: Vec<SalsaFlowNodeRefSummary>,
    pub true_targets: Vec<SalsaFlowNodeRefSummary>,
    pub false_targets: Vec<SalsaFlowNodeRefSummary>,
}

#[derive(Clone, Debug)]
pub struct SalsaFlowBranchGraphSummary {
    pub branch_offset: u32,
    pub condition_node_offset: Option<u32>,
    pub clause_block_offsets: Vec<u32>,
    pub merge_node: Option<SalsaFlowNodeRefSummary>,
    pub next_targets: Vec<SalsaFlowNodeRefSummary>,
}

#[derive(Clone, Debug)]
pub struct SalsaFlowLoopGraphSummary {
    pub loop_offset: u32,
    pub condition_node_offset: Option<u32>,
    pub body_block_offset: Option<u32>,
    pub continue_targets: Vec<SalsaFlowNodeRefSummary>,
    pub merge_node: Option<SalsaFlowNodeRefSummary>,
    pub next_targets: Vec<SalsaFlowNodeRefSummary>,
}

#[derive(Clone, Debug)]
pub struct SalsaFlowTerminalGraphSummary {
    pub terminal_node: SalsaFlowNodeRefSummary,
    pub target_nodes: Vec<SalsaFlowNodeRefSummary>,
    pub unreachable_node: Option<SalsaFlowNodeRefSummary>,
}

/// Summarizes where a jump leads: its targets and the unreachable code after it.
pub fn build_terminal_graph_summary(query: &SalsaFlowQuerySummary, terminal_node: SalsaFlowNodeRefSummary) -> (r: SalsaFlowTerminalGraphSummary)
    ensures
        r.terminal_node == terminal_node,
        r.target_nodes@ == spec_unique(spec_successors_by_kind(query.edges@, terminal_node, SalsaFlowEdgeKindSummary::TerminalToTarget)),
        r.unreachable_node == ({
            let u = spec_successors_by_kind(query.edges@, terminal_node, SalsaFlowEdgeKindSummary::TerminalToUnreachable);
            if u.len() > 0 { Some(u[0]) } else { None }
        }),
{
    let targets = collect_successor_nodes_by_kind(query, &terminal_node, SalsaFlowEdgeKindSummary::TerminalToTarget);
    let unreachable = collect_successor_nodes_by_kind(query, &terminal_node, SalsaFlowEdgeKindSummary::TerminalToUnreachable);
    SalsaFlowTerminalGraphSummary {
        terminal_node,
        target_nodes: unique_nodes(targets),
        unreachable_node: if unreachable.len() > 0 { Some(unreachable[0]) } else { None },
    }
}

} // verus!

verus! {


/// Some edge of kind `kind` ends at `to`, and starts at `from` when that is given.
pub open spec fn spec_has_edge_of_kind(
    edges: Seq<SalsaFlowEdgeSummary>,
    kind: SalsaFlowEdgeKindSummary,
    from: Option<SalsaFlowNodeRefSummary>,
    to: SalsaFlowNodeRefSummary,
) -> bool {
    exists|k: int| 0 <= k < edges.len() && #[trigger] edges[k].kind == kind && edges[k].to == to
        && (from.is_none() || edges[k].from == from.unwrap())
}

fn has_edge_of_kind(
    query: &SalsaFlowQuerySummary,
    kind: SalsaFlowEdgeKindSummary,
    from: Option<SalsaFlowNodeRefSummary>,
    to: SalsaFlowNodeRefSummary,
) -> (r: bool)
    ensures
        r == spec_has_edge_of_kind(query.edges@, kind, from, to),
{
    let mut i: usize = 0;
    while i < query.edges.len()
        invariant
            i <= query.edges@.len(),
            forall|k: int| 0 <= k < i ==> !(#[trigger] query.edges@[k].kind == kind && query.edges@[k].to == to
                && (from.is_none() || query.edges@[k].from == from.unwrap())),
        decreases query.edges@.len() - i,
    {
        let e = query.edges[i];
        let from_ok = match from {
            None => true,
            Some(f) => e.from == f,
        };
        if e.kind == kind && e.to == to && from_ok {
            assert(query.edges@[i as int].kind == kind);
            return true;
        }
        i = i + 1;
    }
    false
}

/// Summarizes the condition at `condition_offset`: the conditions it enters and
/// where it leads when it holds and when it fails.
pub fn build_condition_graph_summary(
    flow: &SalsaFlowSummary,
    query: &SalsaFlowQuerySummary,
    condition_offset: u32,
) -> (r: Option<SalsaFlowConditionGraphSummary>)
    ensures
        match spec_find_condition(*flow, condition_offset) {
            None => r.is_none(),
            Some(cond) => r.is_some() && {
                let g = r.unwrap();
                let node = SalsaFlowNodeRefSummary::Condition(condition_offset);
                &&& g.condition_node_offset == cond.node_offset
                &&& g.syntax_offset == cond.syntax_offset
                &&& g.kind == cond.kind
                &&& g.enter_targets@ == spec_unique(spec_successors_by_kind(query.edges@, node, SalsaFlowEdgeKindSummary::ConditionEnter))
                &&& g.true_targets@ == spec_condition_targets(query.edges@, condition_offset, SalsaFlowEdgeKindSummary::ConditionTrue)
                &&& g.false_targets@ == spec_condition_targets(query.edges@, condition_offset, SalsaFlowEdgeKindSummary::ConditionFalse)
            },
        },
{
    let cond = match find_condition(flow, condition_offset) {
        None => { return None; }
        Some(c) => c,
    };
    let node = SalsaFlowNodeRefSummary::Condition(condition_offset);
    let enters = collect_successor_nodes_by_kind(query, &node, SalsaFlowEdgeKindSummary::ConditionEnter);
    Some(SalsaFlowConditionGraphSummary {
        condition_node_offset: cond.node_offset,
        syntax_offset: cond.syntax_offset,
        kind: cond.kind,
        enter_targets: unique_nodes(enters),
        true_targets: collect_condition_terminal_targets(query, condition_offset,
            SalsaFlowEdgeKindSummary::ConditionTrue, query.edges.len()),
        false_targets: collect_condition_terminal_targets(query, condition_offset,
            SalsaFlowEdgeKindSummary::ConditionFalse, query.edges.len()),
    })
}

/// Summarizes the branch statement at `branch_offset`: its first condition, its
/// clause blocks, its merge node when some clause flows into it, and where
/// control goes after it.
pub fn build_branch_graph_summary(
    flow: &SalsaFlowSummary,
    query: &SalsaFlowQuerySummary,
    branch_offset: u32,
) -> (r: Option<SalsaFlowBranchGraphSummary>)
    ensures
        match spec_find_branch(*flow, branch_offset) {
            None => r.is_none(),
            Some(br) => r.is_some() && {
                let g = r.unwrap();
                let merge = SalsaFlowNodeRefSummary::Merge(branch_offset);
                &&& g.branch_offset == branch_offset
                &&& g.condition_node_offset == (if br.clauses@.len() > 0 { br.clauses@[0].condition_node_offset } else { None })
                &&& g.clause_block_offsets@ == spec_clause_block_offsets(br.clauses@)
                &&& g.merge_node == (if spec_has_edge_of_kind(query.edges@, SalsaFlowEdgeKindSummary::ClauseToMerge, None, merge) {
                        Some(merge)
                    } else {
                        None
                    })
                &&& g.next_targets@ == spec_unique(spec_successors_by_kind(query.edges@, merge, SalsaFlowEdgeKindSummary::MergeToNext))
            },
        },
{
    let branch = match find_branch(flow, branch_offset) {
        None => { return None; }
        Some(b) => b,
    };
    let merge = SalsaFlowNodeRefSummary::Merge(branch_offset);
    let next_targets = collect_successor_nodes_by_kind(query, &merge, SalsaFlowEdgeKindSummary::MergeToNext);
    let has_merge = has_edge_of_kind(query, SalsaFlowEdgeKindSummary::ClauseToMerge, None, merge);
    Some(SalsaFlowBranchGraphSummary {
        branch_offset,
        condition_node_offset: if branch.clauses.len() > 0 { branch.clauses[0].condition_node_offset } else { None },
        clause_block_offsets: clause_block_offsets(&branch.clauses),
        merge_node: if has_merge { Some(merge) } else { None },
        next_targets: unique_nodes(next_targets),
    })
}

/// The offset of the first block node in `nodes`.
pub open spec fn spec_first_block_offset(nodes: Seq<SalsaFlowNodeRefSummary>) -> Option<u32>
    decreases nodes.len(),
{
    if nodes.len() == 0 {
        None
    } else {
        match nodes[0] {
            SalsaFlowNodeRefSummary::Block(o) => Some(o),
            _ => spec_first_block_offset(nodes.drop_first()),
        }
    }
}

fn first_block_offset(nodes: &Vec<SalsaFlowNodeRefSummary>) -> (r: Option<u32>)
    ensures
        r == spec_first_block_offset(nodes@),
{
    let mut i: usize = 0;
    assert(nodes@.skip(0) =~= nodes@);
    while i < nodes.len()
        invariant
            i <= nodes@.len(),
            spec_first_block_offset(nodes@) == spec_first_block_offset(nodes@.skip(i as int)),
        decreases nodes@.len() - i,
    {
        assert(nodes@.skip(i as int).drop_first() =~= nodes@.skip(i + 1));
        assert(nodes@.skip(i as int)[0] == nodes@[i as int]);
        if let SalsaFlowNodeRefSummary::Block(o) = nodes[i] {
            return Some(o);
        }
        i = i + 1;
    }
    None
}

fn append_nodes(dst: &mut Vec<SalsaFlowNodeRefSummary>, src: &Vec<SalsaFlowNodeRefSummary>)
    ensures
        final(dst)@ == old(dst)@ + src@,
{
    let mut k: usize = 0;
    while k < src.len()
        invariant
            k <= src@.len(),
            dst@ == old(dst)@ + src@.take(k as int),
        decreases src@.len() - k,
    {
        dst.push(src[k]);
        assert(dst@ =~= old(dst)@ + src@.take(k + 1));
        k = k + 1;
    }
    assert(src@.take(k as int) =~= src@);
}

/// Summarizes the loop statement at `loop_offset`: its condition, its body, the
/// nodes that continue it, its merge node when control can leave through it, and
/// where control goes after it.
pub fn build_loop_graph_summary(
    flow: &SalsaFlowSummary,
    query: &SalsaFlowQuerySummary,
    loop_offset: u32,
) -> (r: Option<SalsaFlowLoopGraphSummary>)
    ensures
        match spec_find_loop(*flow, loop_offset) {
            None => r.is_none(),
            Some(l) => r.is_some() && {
                let g = r.unwrap();
                let edges = query.edges@;
                let loop_node = SalsaFlowNodeRefSummary::Loop(loop_offset);
                let merge = SalsaFlowNodeRefSummary::Merge(loop_offset);
                let has_merge = spec_has_edge_of_kind(edges, SalsaFlowEdgeKindSummary::LoopToMerge, None, merge)
                    || (l.condition_node_offset.is_some() && spec_has_edge_of_kind(edges, SalsaFlowEdgeKindSummary::ConditionFalse,
                        Some(SalsaFlowNodeRefSummary::Condition(l.condition_node_offset.unwrap())), merge));
                let continues = spec_unique(spec_predecessors(edges, loop_node)) + match l.condition_node_offset {
                    Some(c) => spec_unique(spec_predecessors(edges, SalsaFlowNodeRefSummary::Condition(c))),
                    None => seq![],
                };
                &&& g.loop_offset == loop_offset
                &&& g.condition_node_offset == l.condition_node_offset
                &&& g.body_block_offset == spec_first_block_offset(spec_successors_by_kind(edges, loop_node, SalsaFlowEdgeKindSummary::LoopToBody))
                &&& g.continue_targets@ == spec_unique(continues)
                &&& g.merge_node == (if has_merge { Some(merge) } else { None })
                &&& g.next_targets@ == spec_unique(spec_successors_by_kind(edges, merge, SalsaFlowEdgeKindSummary::MergeToNext))
            },
        },
{
    let l = match find_loop(flow, loop_offset) {
        None => { return None; }
        Some(l) => l,
    };
    let loop_node = SalsaFlowNodeRefSummary::Loop(loop_offset);
    let merge = SalsaFlowNodeRefSummary::Merge(loop_offset);
    let next_targets = collect_successor_nodes_by_kind(query, &merge, SalsaFlowEdgeKindSummary::MergeToNext);
    let mut has_merge = has_edge_of_kind(query, SalsaFlowEdgeKindSummary::LoopToMerge, None, merge);
    if !has_merge {
        if let Some(c) = l.condition_node_offset {
            has_merge = has_edge_of_kind(query, SalsaFlowEdgeKindSummary::ConditionFalse,
                Some(SalsaFlowNodeRefSummary::Condition(c)), merge);
        }
    }
    let mut continue_targets = unique_nodes(collect_predecessor_nodes(query, &loop_node));
    if let Some(c) = l.condition_node_offset {
        let more = unique_nodes(collect_predecessor_nodes(query, &SalsaFlowNodeRefSummary::Condition(c)));
        append_nodes(&mut continue_targets, &more);
    } else {
        assert(continue_targets@ + seq![] =~= continue_targets@);
    }
    let body = collect_successor_nodes_by_kind(query, &loop_node, SalsaFlowEdgeKindSummary::LoopToBody);
    Some(SalsaFlowLoopGraphSummary {
        loop_offset,
        condition_node_offset: l.condition_node_offset,
        body_block_offset: first_block_offset(&body),
        continue_targets: unique_nodes(continue_targets),
        merge_node: if has_merge { Some(merge) } else { None },
        next_targets: unique_nodes(next_targets),
    })
}

} // verus!
