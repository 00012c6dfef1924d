//! The strongly connected components of the semantic graph: which component each
//! node is in, the edges between components, and an order to solve them in.
use vstd::prelude::*;

use crate::offsets::{insert_sorted_unique_usize, strictly_sorted_usize};
use crate::scc::{
    adj_reaches, adj_walk, adjacency_ok, comp_at_most, component_of, components_disjoint, components_strong, number_components,
    run_tarjan,
};
use crate::semantic_graph::{
    SalsaSemanticGraphEdgeSummary, SalsaSemanticGraphNodeSummary, SalsaSemanticGraphSccComponentSummary,
    SalsaSemanticGraphQueryIndex, SalsaSemanticGraphSccIndex, SalsaSemanticGraphSummary, node_key, node_key_of,
    nodes_sorted,
};

verus! {

/// The last position of `x` among the nodes, or -1: the graph's nodes are numbered
/// by a map from node to position, in which a later position replaces an earlier.
pub open spec fn last_node_index(nodes: Seq<SalsaSemanticGraphNodeSummary>, x: SalsaSemanticGraphNodeSummary) -> int
    decreases nodes.len(),
{
    if nodes.len() == 0 {
        -1
    } else if nodes.last() == x {
        nodes.len() - 1
    } else {
        last_node_index(nodes.drop_last(), x)
    }
}

pub proof fn lemma_last_node_index(nodes: Seq<SalsaSemanticGraphNodeSummary>, x: SalsaSemanticGraphNodeSummary)
    ensures
        -1 <= last_node_index(nodes, x) < nodes.len(),
        last_node_index(nodes, x) >= 0 ==> nodes[last_node_index(nodes, x)] == x,
        last_node_index(nodes, x) == -1 ==> !nodes.contains(x),
    decreases nodes.len(),
{
    if nodes.len() > 0 {
        lemma_last_node_index(nodes.drop_last(), x);
        if nodes.last() != x && last_node_index(nodes, x) == -1 {
            assert forall|k: int| 0 <= k < nodes.len() implies nodes[k] != x by {
                if k < nodes.len() - 1 {
                    assert(nodes[k] == nodes.drop_last()[k]);
                }
            }
        }
    }
}

/// The positions of an edge's ends among the nodes, where both are nodes.
pub open spec fn spec_edge_ends(nodes: Seq<SalsaSemanticGraphNodeSummary>, e: SalsaSemanticGraphEdgeSummary) -> Option<
    (int, int),
> {
    let a = last_node_index(nodes, e.from);
    let b = last_node_index(nodes, e.to);
    if a >= 0 && b >= 0 { Some((a, b)) } else { None }
}

fn node_index_of(nodes: &Vec<SalsaSemanticGraphNodeSummary>, x: &SalsaSemanticGraphNodeSummary) -> (r: Option<usize>)
    ensures
        match r {
            Some(i) => i as int == last_node_index(nodes@, *x) && i < nodes@.len(),
            None => last_node_index(nodes@, *x) == -1,
        },
{
    let mut i: usize = nodes.len();
    assert(nodes@.take(i as int) =~= nodes@);
    while i > 0
        invariant
            i <= nodes@.len(),
            last_node_index(nodes@, *x) == last_node_index(nodes@.take(i as int), *x),
        decreases i,
    {
        assert(nodes@.take(i as int).drop_last() =~= nodes@.take(i - 1));
        if nodes[i - 1] == *x {
            return Some(i - 1);
        }
        i = i - 1;
    }
    None
}

fn edge_ends(nodes: &Vec<SalsaSemanticGraphNodeSummary>, e: &SalsaSemanticGraphEdgeSummary) -> (r: Option<
    (usize, usize),
>)
    ensures
        match r {
            Some((a, b)) => spec_edge_ends(nodes@, *e) == Some((a as int, b as int)) && a < nodes@.len() && b
                < nodes@.len(),
            None => spec_edge_ends(nodes@, *e).is_none(),
        },
{
    match node_index_of(nodes, &e.from) {
        Some(a) => match node_index_of(nodes, &e.to) {
            Some(b) => Some((a, b)),
            None => None,
        },
        None => None,
    }
}

/// The successor of position `i` that an edge gives, if it leaves `i`.
pub open spec fn row_entry(nodes: Seq<SalsaSemanticGraphNodeSummary>, e: SalsaSemanticGraphEdgeSummary, i: int) -> Option<
    usize,
> {
    match spec_edge_ends(nodes, e) {
        Some((a, b)) => if a == i { Some(b as usize) } else { None },
        None => None,
    }
}

/// The successors of position `i`, one per edge that leaves it, in edge order.
pub open spec fn spec_adjacency_row(
    nodes: Seq<SalsaSemanticGraphNodeSummary>,
    edges: Seq<SalsaSemanticGraphEdgeSummary>,
    i: int,
) -> Seq<usize> {
    edges.filter_map(|e: SalsaSemanticGraphEdgeSummary| row_entry(nodes, e, i))
}

/// The graph as an adjacency list over node positions.
pub fn build_adjacency(graph: &SalsaSemanticGraphSummary) -> (adj: Vec<Vec<usize>>)
    ensures
        adj@.len() == graph.nodes@.len(),
        adjacency_ok(adj@),
        forall|i: int| 0 <= i < adj@.len() ==> #[trigger] adj@[i]@ == spec_adjacency_row(graph.nodes@, graph.edges@, i),
{
    let n = graph.nodes.len();
    let ghost nodes = graph.nodes@;
    let ghost edges = graph.edges@;
    let mut adj: Vec<Vec<usize>> = Vec::new();
    let mut i: usize = 0;
    while i < n
        invariant
            i <= n,
            n == nodes.len(),
            adj@.len() == i,
            forall|j: int| 0 <= j < i ==> (#[trigger] adj@[j])@.len() == 0,
        decreases n - i,
    {
        adj.push(Vec::new());
        i = i + 1;
    }
    assert forall|j: int| 0 <= j < n implies #[trigger] adj@[j]@ == spec_adjacency_row(nodes, edges.take(0), j) by {
        assert(edges.take(0) =~= Seq::<SalsaSemanticGraphEdgeSummary>::empty());
        assert(adj@[j]@ =~= Seq::<usize>::empty());
    }
    let mut k: usize = 0;
    while k < graph.edges.len()
        invariant
            nodes == graph.nodes@,
            edges == graph.edges@,
            n == nodes.len(),
            k <= edges.len(),
            adj@.len() == n,
            forall|j: int| 0 <= j < n ==> #[trigger] adj@[j]@ == spec_adjacency_row(nodes, edges.take(k as int), j),
        decreases edges.len() - k,
    {
        let ghost before = adj@;
        assert(edges.take(k + 1).drop_last() =~= edges.take(k as int));
        assert(edges.take(k + 1).last() == edges[k as int]);
        match edge_ends(&graph.nodes, &graph.edges[k]) {
            Some((a, b)) => {
                adj[a].push(b);
                assert forall|j: int| 0 <= j < n implies #[trigger] adj@[j]@ == spec_adjacency_row(
                    nodes,
                    edges.take(k + 1),
                    j,
                ) by {
                    if j == a as int {
                        assert(adj@[j]@ =~= before[j]@.push(b));
                    } else {
                        assert(adj@[j] == before[j]);
                    }
                }
            },
            None => {},
        }
        k = k + 1;
    }
    assert(edges.take(k as int) =~= edges);
    assert forall|a: int, j: int| 0 <= a < adj@.len() && 0 <= j < adj@[a]@.len() implies #[trigger] adj@[a]@[j]
        < adj@.len() by {
        lemma_row_entries_in_range(nodes, edges, a);
    }
    adj
}

proof fn lemma_row_entries_in_range(
    nodes: Seq<SalsaSemanticGraphNodeSummary>,
    edges: Seq<SalsaSemanticGraphEdgeSummary>,
    i: int,
)
    ensures
        forall|j: int|
            0 <= j < spec_adjacency_row(nodes, edges, i).len() ==> #[trigger] spec_adjacency_row(nodes, edges, i)[j]
                < nodes.len(),
    decreases edges.len(),
{
    if edges.len() > 0 {
        lemma_row_entries_in_range(nodes, edges.drop_last(), i);
        let e = edges.last();
        lemma_last_node_index(nodes, e.to);
        assert(spec_adjacency_row(nodes, edges, i) == match row_entry(nodes, e, i) {
            Some(s) => spec_adjacency_row(nodes, edges.drop_last(), i) + seq![s],
            None => spec_adjacency_row(nodes, edges.drop_last(), i),
        });
    }
}

} // verus!

verus! {

/// An edge joins component `c` to a different component `d`.
pub open spec fn component_edge(
    nodes: Seq<SalsaSemanticGraphNodeSummary>,
    e: SalsaSemanticGraphEdgeSummary,
    ids: Seq<usize>,
    c: int,
    d: int,
) -> bool {
    match spec_edge_ends(nodes, e) {
        Some((a, b)) => ids[a] == c && ids[b] == d && c != d,
        None => false,
    }
}

/// Some edge joins component `c` to a different component `d`.
pub open spec fn spec_component_successor(
    nodes: Seq<SalsaSemanticGraphNodeSummary>,
    edges: Seq<SalsaSemanticGraphEdgeSummary>,
    ids: Seq<usize>,
    c: int,
    d: int,
) -> bool {
    exists|k: int| 0 <= k < edges.len() && component_edge(nodes, #[trigger] edges[k], ids, c, d)
}

/// An edge leads from a node of component `c` to itself.
pub open spec fn self_loop_edge(
    nodes: Seq<SalsaSemanticGraphNodeSummary>,
    e: SalsaSemanticGraphEdgeSummary,
    ids: Seq<usize>,
    c: int,
) -> bool {
    match spec_edge_ends(nodes, e) {
        Some((a, b)) => a == b && ids[a] == c,
        None => false,
    }
}

pub open spec fn spec_component_self_loop(
    nodes: Seq<SalsaSemanticGraphNodeSummary>,
    edges: Seq<SalsaSemanticGraphEdgeSummary>,
    ids: Seq<usize>,
    c: int,
) -> bool {
    exists|k: int| 0 <= k < edges.len() && self_loop_edge(nodes, #[trigger] edges[k], ids, c)
}

/// The edges between components: for each, the components it leads to and those
/// that lead to it (each once, in increasing order), and whether a node of it has
/// an edge to itself.
pub fn build_component_edges(graph: &SalsaSemanticGraphSummary, ids: &Vec<usize>, count: usize) -> (r: (
    Vec<Vec<usize>>,
    Vec<Vec<usize>>,
    Vec<bool>,
))
    requires
        ids@.len() == graph.nodes@.len(),
        forall|i: int| 0 <= i < ids@.len() ==> #[trigger] ids@[i] < count,
    ensures
        r.0@.len() == count,
        r.1@.len() == count,
        r.2@.len() == count,
        forall|c: int| 0 <= c < count ==> strictly_sorted_usize(#[trigger] r.0@[c]@),
        forall|c: int| 0 <= c < count ==> strictly_sorted_usize(#[trigger] r.1@[c]@),
        forall|c: int, d: usize|
            0 <= c < count ==> (#[trigger] r.0@[c]@.contains(d) <==> spec_component_successor(
                graph.nodes@,
                graph.edges@,
                ids@,
                c,
                d as int,
            )),
        forall|c: int, d: usize|
            0 <= c < count ==> (#[trigger] r.1@[c]@.contains(d) <==> spec_component_successor(
                graph.nodes@,
                graph.edges@,
                ids@,
                d as int,
                c,
            )),
        forall|c: int|
            0 <= c < count ==> (#[trigger] r.2@[c] <==> spec_component_self_loop(graph.nodes@, graph.edges@, ids@, c)),
{
    let ghost nodes = graph.nodes@;
    let ghost edges = graph.edges@;
    let mut succ: Vec<Vec<usize>> = Vec::new();
    let mut pred: Vec<Vec<usize>> = Vec::new();
    let mut loops: Vec<bool> = Vec::new();
    let mut c: usize = 0;
    while c < count
        invariant
            c <= count,
            succ@.len() == c,
            pred@.len() == c,
            loops@.len() == c,
            forall|j: int| 0 <= j < c ==> (#[trigger] succ@[j])@.len() == 0,
            forall|j: int| 0 <= j < c ==> (#[trigger] pred@[j])@.len() == 0,
            forall|j: int| 0 <= j < c ==> !(#[trigger] loops@[j]),
        decreases count - c,
    {
        succ.push(Vec::new());
        pred.push(Vec::new());
        loops.push(false);
        c = c + 1;
    }
    let mut k: usize = 0;
    while k < graph.edges.len()
        invariant
            nodes == graph.nodes@,
            edges == graph.edges@,
            ids@.len() == nodes.len(),
            forall|i: int| 0 <= i < ids@.len() ==> #[trigger] ids@[i] < count,
            k <= edges.len(),
            succ@.len() == count,
            pred@.len() == count,
            loops@.len() == count,
            forall|c: int| 0 <= c < count ==> strictly_sorted_usize(#[trigger] succ@[c]@),
            forall|c: int| 0 <= c < count ==> strictly_sorted_usize(#[trigger] pred@[c]@),
            forall|c: int, d: usize|
                0 <= c < count ==> (#[trigger] succ@[c]@.contains(d) <==> spec_component_successor(
                    nodes,
                    edges.take(k as int),
                    ids@,
                    c,
                    d as int,
                )),
            forall|c: int, d: usize|
                0 <= c < count ==> (#[trigger] pred@[c]@.contains(d) <==> spec_component_successor(
                    nodes,
                    edges.take(k as int),
                    ids@,
                    d as int,
                    c,
                )),
            forall|c: int|
                0 <= c < count ==> (#[trigger] loops@[c] <==> spec_component_self_loop(
                    nodes,
                    edges.take(k as int),
                    ids@,
                    c,
                )),
        decreases edges.len() - k,
    {
        let ghost before_succ = succ@;
        let ghost before_pred = pred@;
        let ghost before_loops = loops@;
        let ghost pre = edges.take(k as int);
        let ghost post = edges.take(k + 1);
        assert(forall|j: int| 0 <= j < k ==> post[j] == pre[j]);
        assert(post[k as int] == edges[k as int]);
        match edge_ends(&graph.nodes, &graph.edges[k]) {
            Some((a, b)) => {
                let ca = ids[a];
                let cb = ids[b];
                if ca == cb {
                    if a == b {
                        loops.set(ca, true);
                    }
                } else {
                    insert_sorted_unique_usize(&mut succ[ca], cb);
                    insert_sorted_unique_usize(&mut pred[cb], ca);
                }
            },
            None => {},
        }
        proof {
            assert forall|c: int, d: usize|
                0 <= c < count implies (#[trigger] succ@[c]@.contains(d) <==> spec_component_successor(
                    nodes,
                    post,
                    ids@,
                    c,
                    d as int,
                )) by {
                assert(before_succ[c]@.contains(d) <==> spec_component_successor(nodes, pre, ids@, c, d as int));
                if spec_component_successor(nodes, post, ids@, c, d as int) {
                    let t = choose|t: int| 0 <= t < post.len() && component_edge(nodes, #[trigger] post[t], ids@, c, d as int);
                    if t < k {
                        assert(pre[t] == post[t]);
                    }
                }
                if spec_component_successor(nodes, pre, ids@, c, d as int) {
                    let t = choose|t: int| 0 <= t < pre.len() && component_edge(nodes, #[trigger] pre[t], ids@, c, d as int);
                    assert(post[t] == pre[t]);
                }
            }
            assert forall|c: int, d: usize|
                0 <= c < count implies (#[trigger] pred@[c]@.contains(d) <==> spec_component_successor(
                    nodes,
                    post,
                    ids@,
                    d as int,
                    c,
                )) by {
                assert(before_pred[c]@.contains(d) <==> spec_component_successor(nodes, pre, ids@, d as int, c));
                if spec_component_successor(nodes, post, ids@, d as int, c) {
                    let t = choose|t: int| 0 <= t < post.len() && component_edge(nodes, #[trigger] post[t], ids@, d as int, c);
                    if t < k {
                        assert(pre[t] == post[t]);
                    }
                }
                if spec_component_successor(nodes, pre, ids@, d as int, c) {
                    let t = choose|t: int| 0 <= t < pre.len() && component_edge(nodes, #[trigger] pre[t], ids@, d as int, c);
                    assert(post[t] == pre[t]);
                }
            }
            assert forall|c: int|
                0 <= c < count implies (#[trigger] loops@[c] <==> spec_component_self_loop(nodes, post, ids@, c)) by {
                assert(before_loops[c] <==> spec_component_self_loop(nodes, pre, ids@, c));
                if spec_component_self_loop(nodes, post, ids@, c) {
                    let t = choose|t: int| 0 <= t < post.len() && self_loop_edge(nodes, #[trigger] post[t], ids@, c);
                    if t < k {
                        assert(pre[t] == post[t]);
                    }
                }
                if spec_component_self_loop(nodes, pre, ids@, c) {
                    let t = choose|t: int| 0 <= t < pre.len() && self_loop_edge(nodes, #[trigger] pre[t], ids@, c);
                    assert(post[t] == pre[t]);
                }
            }
        }
        k = k + 1;
    }
    assert(edges.take(k as int) =~= edges);
    (succ, pred, loops)
}

} // verus!

verus! {

/// The nodes among the first `m` whose component is `c`, in node order.
pub open spec fn nodes_in_component(
    nodes: Seq<SalsaSemanticGraphNodeSummary>,
    ids: Seq<usize>,
    c: int,
    m: int,
) -> Seq<SalsaSemanticGraphNodeSummary>
    decreases m,
{
    if m <= 0 {
        Seq::empty()
    } else {
        let rest = nodes_in_component(nodes, ids, c, m - 1);
        if ids[m - 1] == c { rest.push(nodes[m - 1]) } else { rest }
    }
}

proof fn lemma_nodes_in_component_nonempty(
    nodes: Seq<SalsaSemanticGraphNodeSummary>,
    ids: Seq<usize>,
    c: int,
    m: int,
    x: int,
)
    requires
        0 <= x < m,
        ids[x] == c,
    ensures
        nodes_in_component(nodes, ids, c, m).len() > 0,
    decreases m,
{
    if x < m - 1 {
        lemma_nodes_in_component_nonempty(nodes, ids, c, m - 1, x);
    }
}

/// Groups the nodes by component, each group in node order.
fn bucket_nodes(nodes: &Vec<SalsaSemanticGraphNodeSummary>, ids: &Vec<usize>, count: usize) -> (r: Vec<
    Vec<SalsaSemanticGraphNodeSummary>,
>)
    requires
        ids@.len() == nodes@.len(),
        forall|i: int| 0 <= i < ids@.len() ==> #[trigger] ids@[i] < count,
    ensures
        r@.len() == count,
        forall|c: int| 0 <= c < count ==> #[trigger] r@[c]@ == nodes_in_component(nodes@, ids@, c, nodes@.len() as int),
{
    let mut r: Vec<Vec<SalsaSemanticGraphNodeSummary>> = Vec::new();
    let mut c: usize = 0;
    while c < count
        invariant
            c <= count,
            r@.len() == c,
            forall|j: int| 0 <= j < c ==> (#[trigger] r@[j])@ == nodes_in_component(nodes@, ids@, j, 0),
        decreases count - c,
    {
        r.push(Vec::new());
        proof {
            assert(r@[c as int]@ =~= nodes_in_component(nodes@, ids@, c as int, 0));
        }
        c = c + 1;
    }
    let mut i: usize = 0;
    while i < nodes.len()
        invariant
            ids@.len() == nodes@.len(),
            forall|t: int| 0 <= t < ids@.len() ==> #[trigger] ids@[t] < count,
            i <= nodes@.len(),
            r@.len() == count,
            forall|j: int| 0 <= j < count ==> (#[trigger] r@[j])@ == nodes_in_component(nodes@, ids@, j, i as int),
        decreases nodes@.len() - i,
    {
        let ghost before = r@;
        let c = ids[i];
        r[c].push(nodes[i]);
        assert forall|j: int| 0 <= j < count implies (#[trigger] r@[j])@ == nodes_in_component(
            nodes@,
            ids@,
            j,
            i + 1,
        ) by {
            if j == c as int {
                assert(r@[j]@ =~= before[j]@.push(nodes@[i as int]));
            } else {
                assert(r@[j] == before[j]);
            }
        }
        i = i + 1;
    }
    r
}

/// Sorts nodes into node order.
fn sort_nodes(v: &Vec<SalsaSemanticGraphNodeSummary>) -> (r: Vec<SalsaSemanticGraphNodeSummary>)
    ensures
        nodes_sorted(r@),
        r@.to_multiset() == v@.to_multiset(),
{
    let mut r: Vec<SalsaSemanticGraphNodeSummary> = Vec::new();
    let mut i: usize = 0;
    proof {
        broadcast use vstd::multiset::group_multiset_axioms;
        assert(v@.take(0) =~= Seq::<SalsaSemanticGraphNodeSummary>::empty());
        assert(Seq::<SalsaSemanticGraphNodeSummary>::empty().to_multiset() =~= r@.to_multiset());
    }
    while i < v.len()
        invariant
            i <= v@.len(),
            nodes_sorted(r@),
            r@.to_multiset() == v@.take(i as int).to_multiset(),
        decreases v@.len() - i,
    {
        let x = v[i];
        let kx = node_key_of(&x);
        let mut p: usize = 0;
        while p < r.len() && node_key_of(&r[p]) <= kx
            invariant
                p <= r@.len(),
                kx == node_key(x),
                forall|t: int| 0 <= t < p ==> node_key(r@[t]) <= node_key(x),
            decreases r@.len() - p,
        {
            p = p + 1;
        }
        let ghost old_r = r@;
        assert(forall|t: int| p <= t < old_r.len() ==> node_key(old_r[t]) > node_key(x)) by {
            if p < old_r.len() {
                assert(node_key(old_r[p as int]) > node_key(x));
            }
        }
        r.insert(p, x);
        proof {
            vstd::seq_lib::to_multiset_insert(old_r, p as int, x);
            assert(v@.take(i + 1) =~= v@.take(i as int).push(v@[i as int]));
            vstd::seq_lib::to_multiset_build(v@.take(i as int), v@[i as int]);
            assert forall|a: int, b: int| 0 <= a < b < r@.len() implies node_key(r@[a]) <= node_key(r@[b]) by {
                if b < p {
                    assert(r@[a] == old_r[a] && r@[b] == old_r[b]);
                } else if b == p {
                    assert(r@[a] == old_r[a]);
                } else if a < p {
                    assert(r@[a] == old_r[a] && r@[b] == old_r[b - 1]);
                } else if a == p {
                    assert(r@[b] == old_r[b - 1]);
                } else {
                    assert(r@[a] == old_r[a - 1] && r@[b] == old_r[b - 1]);
                }
            }
        }
        i = i + 1;
    }
    assert(v@.take(i as int) =~= v@);
    r
}

} // verus!

verus! {

/// A list of distinct numbers below `m` has at most `m` entries.
proof fn lemma_distinct_bounded(s: Seq<usize>, m: nat)
    requires
        s.no_duplicates(),
        forall|k: int| 0 <= k < s.len() ==> #[trigger] s[k] < m,
    ensures
        s.len() <= m,
{
    let t = s.map_values(|x: usize| x as int);
    assert(t.no_duplicates()) by {
        assert forall|a: int, b: int| 0 <= a < t.len() && 0 <= b < t.len() && a != b implies t[a] != t[b] by {
            assert(s[a] != s[b]);
        }
    }
    t.unique_seq_to_set();
    vstd::set_lib::lemma_int_range(0, m as int);
    assert(t.to_set().subset_of(vstd::set_lib::set_int_range(0, m as int))) by {
        assert forall|x: int| t.to_set().contains(x) implies vstd::set_lib::set_int_range(0, m as int).contains(x) by {
            let k = choose|k: int| 0 <= k < t.len() && t[k] == x;
            assert(s[k] < m);
        }
    }
    vstd::set_lib::lemma_len_subset(t.to_set(), vstd::set_lib::set_int_range(0, m as int));
}

/// Whether every entry of `preds` is marked in `emitted`.
fn all_marked(preds: &Vec<usize>, emitted: &Vec<bool>) -> (r: bool)
    requires
        forall|k: int| 0 <= k < preds@.len() ==> #[trigger] preds@[k] < emitted@.len(),
    ensures
        r == (forall|k: int| 0 <= k < preds@.len() ==> emitted@[#[trigger] preds@[k] as int]),
{
    let mut k: usize = 0;
    while k < preds.len()
        invariant
            k <= preds@.len(),
            forall|t: int| 0 <= t < preds@.len() ==> #[trigger] preds@[t] < emitted@.len(),
            forall|t: int| 0 <= t < k ==> emitted@[#[trigger] preds@[t] as int],
        decreases preds@.len() - k,
    {
        if !emitted[preds[k]] {
            return false;
        }
        k = k + 1;
    }
    true
}

/// The ready list after the successors `row` of a placed component have been
/// looked at in order: each one not yet in the list whose predecessors are all
/// among the components placed so far (`done`) joins it at the end.
pub open spec fn ready_after_row(row: Seq<usize>, pred: Seq<Vec<usize>>, done: Seq<usize>, ready: Seq<usize>) -> Seq<usize>
    decreases row.len(),
{
    if row.len() == 0 {
        ready
    } else {
        let r = ready_after_row(row.drop_last(), pred, done, ready);
        let s = row.last();
        if !r.contains(s) && forall|k: int| 0 <= k < pred[s as int]@.len() ==> done.contains(#[trigger] pred[s as int]@[k]) {
            r.push(s)
        } else {
            r
        }
    }
}

/// The components below `n` that have no predecessor, in increasing order.
pub open spec fn initial_ready(pred: Seq<Vec<usize>>, n: nat) -> Seq<usize>
    decreases n,
{
    if n == 0 {
        Seq::empty()
    } else {
        let n1 = (n - 1) as nat;
        initial_ready(pred, n1) + if pred[n1 as int]@.len() == 0 {
            seq![n1 as usize]
        } else {
            Seq::empty()
        }
    }
}

/// The ready list once every component from position `ri` on has been placed in
/// turn, each placement adding the successors that it makes ready.
pub open spec fn ready_from(pred: Seq<Vec<usize>>, succ: Seq<Vec<usize>>, ready: Seq<usize>, ri: nat, count: nat) -> Seq<usize>
    decreases count - ri,
{
    if ri >= ready.len() || ri >= count {
        ready
    } else {
        let c = ready[ri as int];
        ready_from(pred, succ, ready_after_row(succ[c as int]@, pred, ready.take(ri + 1 as int), ready), (ri + 1) as nat, count)
    }
}

/// The order in which the components are placed: those without a predecessor in
/// increasing order, then each component as soon as the last of its
/// predecessors has been placed, in the order their predecessors' successor
/// lists name them.
pub open spec fn spec_component_topo_order(pred: Seq<Vec<usize>>, succ: Seq<Vec<usize>>, count: nat) -> Seq<usize> {
    ready_from(pred, succ, initial_ready(pred, count), 0, count)
}

/// Component `s`, a successor of the component placed at position `r`, was
/// looked at then: it is ready, or a predecessor of it had not been placed by
/// then.
pub open spec fn scanned_ok(pred: Seq<Vec<usize>>, ready: Seq<usize>, r: int, s: usize) -> bool {
    ||| ready.contains(s)
    ||| exists|k: int| 0 <= k < pred[s as int]@.len() && !ready.take(r + 1).contains(#[trigger] pred[s as int]@[k])
}

proof fn lemma_scanned_push(pred: Seq<Vec<usize>>, ready: Seq<usize>, r: int, s: usize, x: usize)
    requires
        scanned_ok(pred, ready, r, s),
        0 <= r < ready.len(),
    ensures
        scanned_ok(pred, ready.push(x), r, s),
{
    assert(ready.push(x).take(r + 1) =~= ready.take(r + 1));
    if ready.contains(s) {
        let k = choose|k: int| 0 <= k < ready.len() && ready[k] == s;
        assert(ready.push(x)[k] == s);
    }
}

/// Of a non-empty list of ready components, the position up to which all of
/// them have been placed, taken at one of them.
proof fn lemma_max_position(ready: Seq<usize>, ps: Seq<usize>) -> (r: int)
    requires
        ps.len() > 0,
        forall|k: int| 0 <= k < ps.len() ==> ready.contains(#[trigger] ps[k]),
    ensures
        0 <= r < ready.len(),
        ps.contains(ready[r]),
        forall|k: int| 0 <= k < ps.len() ==> ready.take(r + 1).contains(#[trigger] ps[k]),
    decreases ps.len(),
{
    let x = ps.last();
    assert(ready.contains(ps[ps.len() - 1]));
    let r2 = choose|r2: int| 0 <= r2 < ready.len() && ready[r2] == x;
    if ps.len() == 1 {
        assert(ready.take(r2 + 1)[r2] == x);
        assert(ps[0] == x);
        r2
    } else {
        let q = ps.drop_last();
        assert forall|k: int| 0 <= k < q.len() implies ready.contains(#[trigger] q[k]) by {
            assert(q[k] == ps[k]);
        }
        let r1 = lemma_max_position(ready, q);
        let r = if r1 >= r2 { r1 } else { r2 };
        assert forall|k: int| 0 <= k < ps.len() implies ready.take(r + 1).contains(#[trigger] ps[k]) by {
            if k < ps.len() - 1 {
                assert(q[k] == ps[k]);
                assert(ready.take(r1 + 1).contains(q[k]));
                let pre = ready.take(r1 + 1);
                let t = choose|t: int| 0 <= t < pre.len() && #[trigger] pre[t] == q[k];
                assert(ready.take(r + 1)[t] == ps[k]);
            } else {
                assert(ready.take(r + 1)[r2] == x);
            }
        }
        if r == r1 {
            let t = choose|t: int| 0 <= t < q.len() && q[t] == ready[r1];
            assert(ps[t] == ready[r]);
        } else {
            assert(ps[ps.len() - 1] == ready[r]);
        }
        r
    }
}

/// When every predecessor of a component has a larger number and lists the
/// component among its successors, every component from `c` on is ready at the
/// end of the placement.
proof fn lemma_all_ready(pred: Seq<Vec<usize>>, succ: Seq<Vec<usize>>, ready: Seq<usize>, count: int, c: int)
    requires
        pred.len() == count,
        succ.len() == count,
        0 <= c,
        forall|x: int, k: int| 0 <= x < count && 0 <= k < pred[x]@.len() ==> #[trigger] pred[x]@[k] > x,
        forall|x: int, k: int| 0 <= x < count && 0 <= k < pred[x]@.len() ==> pred[x]@[k] < count,
        forall|x: int, k: int|
            0 <= x < count && 0 <= k < pred[x]@.len() ==> #[trigger] succ[pred[x]@[k] as int]@.contains(x as usize),
        forall|x: int| 0 <= x < count && pred[x]@.len() == 0 ==> #[trigger] ready.contains(x as usize),
        forall|k: int| 0 <= k < ready.len() ==> #[trigger] ready[k] < count,
        forall|r: int, e: int|
            0 <= r < ready.len() && 0 <= e < succ[ready[r] as int]@.len() ==> #[trigger] scanned_ok(
                pred,
                ready,
                r,
                succ[ready[r] as int]@[e],
            ),
    ensures
        forall|x: int| c <= x < count ==> #[trigger] ready.contains(x as usize),
    decreases count - c,
{
    if c < count {
        lemma_all_ready(pred, succ, ready, count, c + 1);
        if pred[c]@.len() > 0 {
            let ps = pred[c]@;
            assert forall|k: int| 0 <= k < ps.len() implies ready.contains(#[trigger] ps[k]) by {
                assert(pred[c]@[k] > c);
                assert(ready.contains(pred[c]@[k] as int as usize));
            }
            let r = lemma_max_position(ready, ps);
            let t = choose|t: int| 0 <= t < ps.len() && ps[t] == ready[r];
            assert(succ[pred[c]@[t] as int]@.contains(c as usize));
            let e = choose|e: int| 0 <= e < succ[ready[r] as int]@.len() && succ[ready[r] as int]@[e] == c as usize;
            assert(scanned_ok(pred, ready, r, succ[ready[r] as int]@[e]));
            if !ready.contains(c as usize) {
                let k = choose|k: int| 0 <= k < pred[c]@.len() && !ready.take(r + 1).contains(#[trigger] pred[c]@[k]);
                assert(ready.take(r + 1).contains(ps[k]));
            }
        }
        assert forall|x: int| c <= x < count implies #[trigger] ready.contains(x as usize) by {
            if x > c {
                assert(ready.contains(x as usize));
            }
        }
    }
}

/// A list of distinct numbers below `m` that holds each of them has `m` entries.
proof fn lemma_distinct_cover(s: Seq<usize>, m: nat)
    requires
        m <= usize::MAX,
        s.no_duplicates(),
        forall|k: int| 0 <= k < s.len() ==> #[trigger] s[k] < m,
        forall|x: int| 0 <= x < m ==> #[trigger] s.contains(x as usize),
    ensures
        s.len() == m,
{
    lemma_distinct_bounded(s, m);
    let t = s.map_values(|x: usize| x as int);
    assert(t.no_duplicates()) by {
        assert forall|a: int, b: int| 0 <= a < t.len() && 0 <= b < t.len() && a != b implies t[a] != t[b] by {
            assert(s[a] != s[b]);
        }
    }
    t.unique_seq_to_set();
    vstd::set_lib::lemma_int_range(0, m as int);
    assert(vstd::set_lib::set_int_range(0, m as int).subset_of(t.to_set())) by {
        assert forall|x: int| vstd::set_lib::set_int_range(0, m as int).contains(x) implies t.to_set().contains(x) by {
            assert(s.contains(x as usize));
            let k = choose|k: int| 0 <= k < s.len() && s[k] == x as usize;
            assert(t[k] == x);
        }
    }
    vstd::set_lib::lemma_len_subset(vstd::set_lib::set_int_range(0, m as int), t.to_set());
}

/// An order of the components that puts every component after those with an edge
/// to it: first those without such a component, in increasing order, then each
/// component as soon as the last of them has been placed.
pub fn build_component_topo_order(succ: &Vec<Vec<usize>>, pred: &Vec<Vec<usize>>, count: usize) -> (topo: Vec<
    usize,
>)
    requires
        succ@.len() == count,
        pred@.len() == count,
        forall|c: int, k: int| 0 <= c < count && 0 <= k < succ@[c]@.len() ==> #[trigger] succ@[c]@[k] < count,
        forall|c: int, k: int| 0 <= c < count && 0 <= k < pred@[c]@.len() ==> #[trigger] pred@[c]@[k] < count,
    ensures
        topo@.no_duplicates(),
        forall|k: int| 0 <= k < topo@.len() ==> #[trigger] topo@[k] < count,
        forall|k: int, p: int|
            0 <= k < topo@.len() && 0 <= p < pred@[topo@[k] as int]@.len() ==> topo@.take(k).contains(
                #[trigger] pred@[topo@[k] as int]@[p],
            ),
        topo@ == spec_component_topo_order(pred@, succ@, count as nat),
        (forall|c: int, k: int| 0 <= c < count && 0 <= k < pred@[c]@.len() ==> #[trigger] pred@[c]@[k] > c) && (forall|
            c: int,
            k: int,
        | 0 <= c < count && 0 <= k < pred@[c]@.len() ==> #[trigger] succ@[pred@[c]@[k] as int]@.contains(c as usize))
            ==> topo@.len() == count,
{
    let mut emitted: Vec<bool> = Vec::new();
    let mut queued: Vec<bool> = Vec::new();
    let mut ready: Vec<usize> = Vec::new();
    let mut c: usize = 0;
    while c < count
        invariant
            c <= count,
            pred@.len() == count,
            emitted@.len() == c,
            queued@.len() == c,
            forall|j: int| 0 <= j < c ==> !(#[trigger] emitted@[j]),
            forall|j: int| 0 <= j < c ==> (#[trigger] queued@[j] <==> ready@.contains(j as usize)),
            ready@.no_duplicates(),
            forall|k: int| 0 <= k < ready@.len() ==> #[trigger] ready@[k] < c,
            forall|k: int| 0 <= k < ready@.len() ==> pred@[#[trigger] ready@[k] as int]@.len() == 0,
            ready@ == initial_ready(pred@, c as nat),
            forall|x: int| 0 <= x < c && pred@[x]@.len() == 0 ==> #[trigger] ready@.contains(x as usize),
        decreases count - c,
    {
        emitted.push(false);
        let ghost before = ready@;
        if pred[c].len() == 0 {
            ready.push(c);
            queued.push(true);
        } else {
            queued.push(false);
        }
        assert(ready@ =~= initial_ready(pred@, (c + 1) as nat));
        assert forall|x: int| 0 <= x < c + 1 && pred@[x]@.len() == 0 implies #[trigger] ready@.contains(x as usize) by {
            if x < c {
                assert(before.contains(x as usize));
                let k = choose|k: int| 0 <= k < before.len() && before[k] == x as usize;
                assert(ready@[k] == x as usize);
            } else {
                assert(ready@[ready@.len() - 1] == c);
            }
        }
        assert forall|j: int| 0 <= j < c + 1 implies (#[trigger] queued@[j] <==> ready@.contains(j as usize)) by {
            if j < c {
                if ready@.contains(j as usize) && !before.contains(j as usize) {
                    assert(ready@[ready@.len() - 1] == c);
                    let k = choose|k: int| 0 <= k < ready@.len() && ready@[k] == j as usize;
                    assert(k != ready@.len() - 1 ==> before[k] == j as usize);
                }
                if before.contains(j as usize) {
                    let k = choose|k: int| 0 <= k < before.len() && before[k] == j as usize;
                    assert(ready@[k] == j as usize);
                }
            } else {
                if ready@.contains(j as usize) && !before.contains(j as usize) {
                } else if before.contains(j as usize) {
                    let k = choose|k: int| 0 <= k < before.len() && before[k] == j as usize;
                    assert(before[k] < c);
                }
                if queued@[j] {
                    assert(ready@[ready@.len() - 1] == c);
                }
            }
        }
        assert(ready@.no_duplicates()) by {
            assert forall|a: int, b: int| 0 <= a < b < ready@.len() implies ready@[a] != ready@[b] by {
                if b == before.len() {
                    assert(ready@[a] == before[a]);
                    assert(before[a] < c);
                }
            }
        }
        c = c + 1;
    }
    let ghost target = spec_component_topo_order(pred@, succ@, count as nat);
    let mut topo: Vec<usize> = Vec::new();
    let mut ri: usize = 0;
    proof {
        lemma_distinct_bounded(ready@, count as nat);
        assert(topo@ =~= ready@.take(0));
    }
    while ri < ready.len()
        invariant
            succ@.len() == count,
            pred@.len() == count,
            forall|c: int, k: int| 0 <= c < count && 0 <= k < succ@[c]@.len() ==> #[trigger] succ@[c]@[k] < count,
            forall|c: int, k: int| 0 <= c < count && 0 <= k < pred@[c]@.len() ==> #[trigger] pred@[c]@[k] < count,
            emitted@.len() == count,
            queued@.len() == count,
            ri <= ready@.len(),
            ready@.len() <= count,
            topo@ == ready@.take(ri as int),
            ready@.no_duplicates(),
            forall|k: int| 0 <= k < ready@.len() ==> #[trigger] ready@[k] < count,
            forall|j: int| 0 <= j < count ==> (#[trigger] queued@[j] <==> ready@.contains(j as usize)),
            forall|j: int| 0 <= j < count ==> (#[trigger] emitted@[j] <==> topo@.contains(j as usize)),
            forall|k: int, p: int|
                0 <= k < ready@.len() && 0 <= p < pred@[ready@[k] as int]@.len() ==> ready@.take(k).contains(
                    #[trigger] pred@[ready@[k] as int]@[p],
                ),
            target == spec_component_topo_order(pred@, succ@, count as nat),
            ready_from(pred@, succ@, ready@, ri as nat, count as nat) == target,
            forall|x: int| 0 <= x < count && pred@[x]@.len() == 0 ==> #[trigger] ready@.contains(x as usize),
            forall|r: int, e: int|
                0 <= r < ri && 0 <= e < succ@[ready@[r] as int]@.len() ==> #[trigger] scanned_ok(
                    pred@,
                    ready@,
                    r,
                    succ@[ready@[r] as int]@[e],
                ),
        decreases count - ri,
    {
        let c = ready[ri];
        let ghost ready_start = ready@;
        let ghost ri_start = ri as nat;
        let ghost topo_before = topo@;
        topo.push(c);
        emitted.set(c, true);
        ri = ri + 1;
        proof {
            assert(topo@ =~= ready@.take(ri as int));
            assert forall|j: int| 0 <= j < count implies (#[trigger] emitted@[j] <==> topo@.contains(j as usize)) by {
                if j == c as int {
                    assert(topo@[topo@.len() - 1] == c);
                } else {
                    if topo@.contains(j as usize) {
                        let k = choose|k: int| 0 <= k < topo@.len() && topo@[k] == j as usize;
                        assert(topo_before[k] == j as usize);
                    }
                    if topo_before.contains(j as usize) {
                        let k = choose|k: int| 0 <= k < topo_before.len() && topo_before[k] == j as usize;
                        assert(topo@[k] == j as usize);
                    }
                }
            }
        }
        let row = &succ[c];
        let mut j: usize = 0;
        while j < row.len()
            invariant
                succ@.len() == count,
                pred@.len() == count,
                c < count,
                *row == succ@[c as int],
                forall|c: int, k: int| 0 <= c < count && 0 <= k < succ@[c]@.len() ==> #[trigger] succ@[c]@[k] < count,
                forall|c: int, k: int| 0 <= c < count && 0 <= k < pred@[c]@.len() ==> #[trigger] pred@[c]@[k] < count,
                emitted@.len() == count,
                queued@.len() == count,
                0 < ri <= ready@.len(),
                topo@ == ready@.take(ri as int),
                ready@.no_duplicates(),
                forall|k: int| 0 <= k < ready@.len() ==> #[trigger] ready@[k] < count,
                forall|j: int| 0 <= j < count ==> (#[trigger] queued@[j] <==> ready@.contains(j as usize)),
                forall|j: int| 0 <= j < count ==> (#[trigger] emitted@[j] <==> topo@.contains(j as usize)),
                forall|k: int, p: int|
                    0 <= k < ready@.len() && 0 <= p < pred@[ready@[k] as int]@.len() ==> ready@.take(k).contains(
                        #[trigger] pred@[ready@[k] as int]@[p],
                    ),
                j <= row@.len(),
                ri == ri_start + 1,
                ri_start < ready_start.len(),
                ready_start.take(ri as int) == topo@,
                ready@ == ready_after_row(row@.take(j as int), pred@, topo@, ready_start),
                ready_start.len() <= ready@.len(),
                ready@.take(ready_start.len() as int) == ready_start,
                forall|x: int| 0 <= x < count && pred@[x]@.len() == 0 ==> #[trigger] ready@.contains(x as usize),
                forall|r: int, e: int|
                    0 <= r < ri_start && 0 <= e < succ@[ready@[r] as int]@.len() ==> #[trigger] scanned_ok(
                        pred@,
                        ready@,
                        r,
                        succ@[ready@[r] as int]@[e],
                    ),
                forall|e: int| 0 <= e < j ==> #[trigger] scanned_ok(pred@, ready@, ri_start as int, row@[e]),
            decreases row@.len() - j,
        {
            let s = row[j];
            assert(s < count) by { assert(succ@[c as int]@[j as int] == s); }
            assert(row@.take(j + 1).drop_last() =~= row@.take(j as int));
            assert(row@.take(j + 1).last() == s);
            let ghost pre_ready = ready@;
            if !queued[s] {
                if all_marked(&pred[s], &emitted) {
                    let ghost before = ready@;
                    ready.push(s);
                    queued.set(s, true);
                    proof {
                        assert(!before.contains(s));
                        assert(ready@.no_duplicates()) by {
                            assert forall|a: int, b: int| 0 <= a < b < ready@.len() implies ready@[a] != ready@[b] by {
                                if b == before.len() {
                                    assert(ready@[a] == before[a]);
                                }
                            }
                        }
                        assert(topo@ =~= ready@.take(ri as int)) by {
                            assert(ready@.take(ri as int) =~= before.take(ri as int));
                        }
                        assert forall|x: int| 0 <= x < count implies (#[trigger] queued@[x] <==> ready@.contains(
                            x as usize,
                        )) by {
                            if x == s as int {
                                assert(ready@[ready@.len() - 1] == s);
                            } else {
                                if ready@.contains(x as usize) {
                                    let k = choose|k: int| 0 <= k < ready@.len() && ready@[k] == x as usize;
                                    assert(before[k] == x as usize);
                                }
                                if before.contains(x as usize) {
                                    let k = choose|k: int| 0 <= k < before.len() && before[k] == x as usize;
                                    assert(ready@[k] == x as usize);
                                }
                            }
                        }
                        assert forall|k: int, p: int|
                            0 <= k < ready@.len() && 0 <= p < pred@[ready@[k] as int]@.len() implies ready@.take(
                                k,
                            ).contains(#[trigger] pred@[ready@[k] as int]@[p]) by {
                            if k < before.len() {
                                assert(ready@[k] == before[k]);
                                assert(ready@.take(k) =~= before.take(k));
                            } else {
                                let q = pred@[s as int]@[p];
                                assert(emitted@[q as int]);
                                assert(topo@.contains(q));
                                let t = choose|t: int| 0 <= t < topo@.len() && topo@[t] == q;
                                assert(ready@.take(k)[t] == q);
                            }
                        }
                        assert forall|k: int| 0 <= k < ready@.len() implies #[trigger] ready@[k] < count by {
                            if k < before.len() {
                                assert(ready@[k] == before[k]);
                            }
                        }
                    }
                }
            }
            proof {
                assert(ready@ == pre_ready || ready@ == pre_ready.push(s));
                assert(ready@.take(ready_start.len() as int) =~= ready_start) by {
                    assert(pre_ready.take(ready_start.len() as int) == ready_start);
                    if ready@ != pre_ready {
                        assert(ready@.take(ready_start.len() as int) =~= pre_ready.take(ready_start.len() as int));
                    }
                }
                assert forall|x: int| 0 <= x < count && pred@[x]@.len() == 0 implies #[trigger] ready@.contains(x as usize) by {
                    assert(pre_ready.contains(x as usize));
                    let k = choose|k: int| 0 <= k < pre_ready.len() && pre_ready[k] == x as usize;
                    assert(ready@[k] == x as usize);
                }
                assert forall|r: int, e: int|
                    0 <= r < ri_start && 0 <= e < succ@[ready@[r] as int]@.len() implies #[trigger] scanned_ok(
                        pred@,
                        ready@,
                        r,
                        succ@[ready@[r] as int]@[e],
                    ) by {
                    assert(ready@[r] == pre_ready[r]);
                    assert(scanned_ok(pred@, pre_ready, r, succ@[pre_ready[r] as int]@[e]));
                    if ready@ != pre_ready {
                        lemma_scanned_push(pred@, pre_ready, r, succ@[pre_ready[r] as int]@[e], s);
                    }
                }
                assert(ready@.take(ri_start as int + 1) == topo@) by {
                    assert(ready_start.take(ri as int) == topo@);
                    assert(ready@.take(ri as int) =~= ready_start.take(ri as int));
                }
                assert forall|e: int| 0 <= e < j + 1 implies #[trigger] scanned_ok(pred@, ready@, ri_start as int, row@[e]) by {
                    if e < j {
                        if ready@ != pre_ready {
                            lemma_scanned_push(pred@, pre_ready, ri_start as int, row@[e], s);
                        }
                    } else {
                        assert(row@[e] == s);
                        if pre_ready.contains(s) {
                            let k = choose|k: int| 0 <= k < pre_ready.len() && pre_ready[k] == s;
                            assert(ready@[k] == s);
                        } else if ready@ == pre_ready.push(s) {
                            assert(ready@[ready@.len() - 1] == s);
                        } else {
                            assert(!(forall|k: int| 0 <= k < pred@[s as int]@.len() ==> emitted@[#[trigger] pred@[s as int]@[k] as int]));
                            let k = choose|k: int| 0 <= k < pred@[s as int]@.len() && !emitted@[pred@[s as int]@[k] as int];
                            assert(pred@[s as int]@[k] < count);
                            assert(!topo@.contains(pred@[s as int]@[k]));
                            assert(!ready@.take(ri_start as int + 1).contains(pred@[s as int]@[k]));
                        }
                    }
                }
            }
            j = j + 1;
        }
        proof {
            assert forall|r: int, e: int|
                0 <= r < ri && 0 <= e < succ@[ready@[r] as int]@.len() implies #[trigger] scanned_ok(
                    pred@,
                    ready@,
                    r,
                    succ@[ready@[r] as int]@[e],
                ) by {
                if r == ri_start {
                    assert(ready@[r] == ready_start[r]);
                    assert(ready_start[r] == c);
                    assert(succ@[c as int] == *row);
                }
            }
            lemma_distinct_bounded(ready@, count as nat);
            assert(row@.take(j as int) =~= row@);
        }
    }
    proof {
        assert(topo@ =~= ready@);
        if (forall|c: int, k: int| 0 <= c < count && 0 <= k < pred@[c]@.len() ==> #[trigger] pred@[c]@[k] > c) && (forall|
            c: int,
            k: int,
        | 0 <= c < count && 0 <= k < pred@[c]@.len() ==> #[trigger] succ@[pred@[c]@[k] as int]@.contains(c as usize)) {
            lemma_all_ready(pred@, succ@, ready@, count as int, 0);
            lemma_distinct_cover(ready@, count as nat);
        }
    }
    topo
}

} // verus!

verus! {

/// Some edge leads from the node at position `a` to the node at position `b`.
pub open spec fn graph_step(
    nodes: Seq<SalsaSemanticGraphNodeSummary>,
    edges: Seq<SalsaSemanticGraphEdgeSummary>,
    a: int,
    b: int,
) -> bool {
    exists|t: int| 0 <= t < edges.len() && #[trigger] spec_edge_ends(nodes, edges[t]) == Some((a, b))
}

/// `w` is a walk along edges: positions of nodes, each joined to the next by an edge.
pub open spec fn is_graph_walk(
    nodes: Seq<SalsaSemanticGraphNodeSummary>,
    edges: Seq<SalsaSemanticGraphEdgeSummary>,
    w: Seq<int>,
) -> bool {
    &&& w.len() >= 1
    &&& forall|i: int| 0 <= i < w.len() - 1 ==> graph_step(nodes, edges, #[trigger] w[i], w[i + 1])
}

/// The node at position `b` can be reached from the node at position `a` by
/// following zero or more edges.
pub open spec fn graph_reaches(
    nodes: Seq<SalsaSemanticGraphNodeSummary>,
    edges: Seq<SalsaSemanticGraphEdgeSummary>,
    a: int,
    b: int,
) -> bool {
    exists|w: Seq<int>| #[trigger] is_graph_walk(nodes, edges, w) && w[0] == a && w.last() == b
}

proof fn lemma_row_contains(
    nodes: Seq<SalsaSemanticGraphNodeSummary>,
    edges: Seq<SalsaSemanticGraphEdgeSummary>,
    t: int,
    a: int,
    b: int,
)
    requires
        0 <= t < edges.len(),
        spec_edge_ends(nodes, edges[t]) == Some((a, b)),
    ensures
        spec_adjacency_row(nodes, edges, a).contains(b as usize),
    decreases edges.len(),
{
    let e = edges.last();
    assert(spec_adjacency_row(nodes, edges, a) == match row_entry(nodes, e, a) {
        Some(s) => spec_adjacency_row(nodes, edges.drop_last(), a) + seq![s],
        None => spec_adjacency_row(nodes, edges.drop_last(), a),
    });
    if t == edges.len() - 1 {
        let row = spec_adjacency_row(nodes, edges, a);
        assert(row[row.len() - 1] == b as usize);
    } else {
        assert(edges.drop_last()[t] == edges[t]);
        lemma_row_contains(nodes, edges.drop_last(), t, a, b);
        let r0 = spec_adjacency_row(nodes, edges.drop_last(), a);
        let k = choose|k: int| 0 <= k < r0.len() && r0[k] == b as usize;
        assert(spec_adjacency_row(nodes, edges, a)[k] == b as usize);
    }
}

proof fn lemma_row_step(
    nodes: Seq<SalsaSemanticGraphNodeSummary>,
    edges: Seq<SalsaSemanticGraphEdgeSummary>,
    a: int,
    b: usize,
)
    requires
        spec_adjacency_row(nodes, edges, a).contains(b),
        nodes.len() <= usize::MAX,
    ensures
        graph_step(nodes, edges, a, b as int),
    decreases edges.len(),
{
    let e = edges.last();
    let rest = spec_adjacency_row(nodes, edges.drop_last(), a);
    assert(spec_adjacency_row(nodes, edges, a) == match row_entry(nodes, e, a) {
        Some(s) => rest + seq![s],
        None => rest,
    });
    if rest.contains(b) {
        lemma_row_step(nodes, edges.drop_last(), a, b);
        let t = choose|t: int| 0 <= t < edges.drop_last().len() && #[trigger] spec_edge_ends(nodes, edges.drop_last()[t]) == Some((a, b as int));
        assert(edges.drop_last()[t] == edges[t]);
        assert(spec_edge_ends(nodes, edges[t]) == Some((a, b as int)));
    } else {
        assert(row_entry(nodes, e, a) == Some(b));
        let t = edges.len() - 1;
        assert(edges[t] == e);
        let (x, y) = spec_edge_ends(nodes, e)->0;
        lemma_last_node_index(nodes, e.to);
        assert(0 <= y < nodes.len());
        assert(y as usize == b);
        assert(y == b as int);
        assert(spec_edge_ends(nodes, edges[t]) == Some((a, b as int)));
    }
}

/// A walk in the adjacency list of the graph is a walk along its edges.
proof fn lemma_adj_to_graph(
    adj: Seq<Vec<usize>>,
    nodes: Seq<SalsaSemanticGraphNodeSummary>,
    edges: Seq<SalsaSemanticGraphEdgeSummary>,
    a: int,
    b: int,
)
    requires
        adj_reaches(adj, a, b),
        adj.len() == nodes.len(),
        nodes.len() <= usize::MAX,
        forall|i: int| 0 <= i < adj.len() ==> #[trigger] adj[i]@ == spec_adjacency_row(nodes, edges, i),
    ensures
        graph_reaches(nodes, edges, a, b),
{
    reveal(adj_reaches);
    let w = choose|w: Seq<int>| #[trigger] adj_walk(adj, w) && w[0] == a && w.last() == b;
    assert forall|i: int| 0 <= i < w.len() - 1 implies graph_step(nodes, edges, #[trigger] w[i], w[i + 1]) by {
        assert(0 <= w[i] < adj.len());
        assert(0 <= w[i + 1] < adj.len());
        assert(adj[w[i]]@.contains(w[i + 1] as usize));
        lemma_row_step(nodes, edges, w[i], w[i + 1] as usize);
        assert((w[i + 1] as usize) as int == w[i + 1]);
    }
    assert(is_graph_walk(nodes, edges, w));
}

/// Along a walk, the component ids never grow, where no edge leads to a larger id.
proof fn lemma_walk_ids(
    nodes: Seq<SalsaSemanticGraphNodeSummary>,
    edges: Seq<SalsaSemanticGraphEdgeSummary>,
    ids: Seq<usize>,
    w: Seq<int>,
)
    requires
        is_graph_walk(nodes, edges, w),
        0 <= w[0] < ids.len(),
        ids.len() == nodes.len(),
        forall|t: int| #![trigger spec_edge_ends(nodes, edges[t])]
            0 <= t < edges.len() && spec_edge_ends(nodes, edges[t]) is Some ==> {
                let (a, b) = spec_edge_ends(nodes, edges[t])->0;
                ids[b] <= ids[a]
            },
    ensures
        0 <= w.last() < ids.len(),
        ids[w.last()] <= ids[w[0]],
    decreases w.len(),
{
    if w.len() > 1 {
        let v = w.drop_last();
        assert forall|i: int| 0 <= i < v.len() - 1 implies graph_step(nodes, edges, #[trigger] v[i], v[i + 1]) by {
            assert(v[i] == w[i] && v[i + 1] == w[i + 1]);
            assert(graph_step(nodes, edges, w[i], w[i + 1]));
        }
        lemma_walk_ids(nodes, edges, ids, v);
        let k = w.len() - 2;
        assert(graph_step(nodes, edges, w[k], w[k + 1]));
        let t = choose|t: int| 0 <= t < edges.len() && #[trigger] spec_edge_ends(nodes, edges[t]) == Some((w[k], w[k + 1]));
        lemma_last_node_index(nodes, edges[t].to);
        assert(v.last() == w[k]);
    }
}

/// What the component index says of the graph: each node's component, two
/// nodes sharing one exactly when each reaches the other, and every edge leading
/// to a component numbered no higher; each component's nodes in node order, the
/// components its edges lead to and come from, and whether it is a cycle (more
/// than one node, or a node with an edge to itself); and an order that lists
/// every component once and places each after every component with an edge to it.
pub open spec fn spec_scc_index(graph: SalsaSemanticGraphSummary, r: SalsaSemanticGraphSccIndex) -> bool {
    let nodes = graph.nodes@;
    let edges = graph.edges@;
    let ids = r.node_component_ids@;
    let count = r.components@.len();
    &&& r.node_order@ == nodes
    &&& ids.len() == nodes.len()
    &&& forall|i: int| 0 <= i < ids.len() ==> #[trigger] ids[i] < count
    &&& forall|c: int|
        0 <= c < count ==> {
            let comp = #[trigger] r.components@[c];
            let members = nodes_in_component(nodes, ids, c, nodes.len() as int);
            &&& comp.component_id == c
            &&& nodes_sorted(comp.nodes@)
            &&& comp.nodes@.to_multiset() == members.to_multiset()
            &&& members.len() > 0
            &&& strictly_sorted_usize(comp.successor_component_ids@)
            &&& strictly_sorted_usize(comp.predecessor_component_ids@)
            &&& forall|d: usize|
                #[trigger] comp.successor_component_ids@.contains(d) <==> spec_component_successor(
                    nodes,
                    edges,
                    ids,
                    c,
                    d as int,
                )
            &&& forall|d: usize|
                #[trigger] comp.predecessor_component_ids@.contains(d) <==> spec_component_successor(
                    nodes,
                    edges,
                    ids,
                    d as int,
                    c,
                )
            &&& comp.is_cycle == (spec_component_self_loop(nodes, edges, ids, c) || members.len() > 1)
        }
    &&& forall|t: int| #![trigger spec_edge_ends(nodes, edges[t])]
        0 <= t < edges.len() && spec_edge_ends(nodes, edges[t]) is Some ==> {
            let (a, b) = spec_edge_ends(nodes, edges[t])->0;
            ids[b] <= ids[a]
        }
    &&& forall|a: int, b: int|
        0 <= a < nodes.len() && 0 <= b < nodes.len() && #[trigger] graph_reaches(nodes, edges, a, b)
            && #[trigger] graph_reaches(nodes, edges, b, a) ==> ids[a] == ids[b]
    &&& forall|a: int, b: int|
        #![trigger ids[a], ids[b]]
        0 <= a < nodes.len() && 0 <= b < nodes.len() && ids[a] == ids[b] ==> graph_reaches(nodes, edges, a, b)
    &&& r.topo_order@ == spec_component_topo_order(
        r.components@.map_values(|x: SalsaSemanticGraphSccComponentSummary| x.predecessor_component_ids),
        r.components@.map_values(|x: SalsaSemanticGraphSccComponentSummary| x.successor_component_ids),
        count as nat,
    )
    &&& r.topo_order@.no_duplicates()
    &&& r.topo_order@.len() == count
    &&& forall|k: int| 0 <= k < r.topo_order@.len() ==> #[trigger] r.topo_order@[k] < count
    &&& forall|k: int, p: usize|
        0 <= k < r.topo_order@.len() && spec_component_successor(nodes, edges, ids, p as int, r.topo_order@[k] as int)
            ==> #[trigger] r.topo_order@.take(k).contains(p)
}

/// Finds the strongly connected components of the semantic graph (by Tarjan's
/// algorithm, numbered in the order their roots finish), the edges between them
/// and an order to solve them in.
pub fn build_semantic_graph_scc_index(graph: &SalsaSemanticGraphSummary) -> (r: SalsaSemanticGraphSccIndex)
    ensures
        spec_scc_index(*graph, r),
{
    let n = graph.nodes.len();
    let adj = build_adjacency(graph);
    let st = run_tarjan(&adj);
    let ids = number_components(&st, n);
    let count = st.components.len();
    assert forall|i: int| 0 <= i < ids@.len() implies #[trigger] ids@[i] < count by {
        assert(component_of(st.components@, i as usize, ids@[i] as int));
    }
    proof {
        let nodes = graph.nodes@;
        let edges = graph.edges@;
        let comps = st.components@;
        assert forall|t: int| #![trigger spec_edge_ends(nodes, edges[t])]
            0 <= t < edges.len() && spec_edge_ends(nodes, edges[t]) is Some implies {
                let (a, b) = spec_edge_ends(nodes, edges[t])->0;
                ids@[b] <= ids@[a]
            } by {
            let (a, b) = spec_edge_ends(nodes, edges[t])->0;
            lemma_last_node_index(nodes, edges[t].from);
            lemma_last_node_index(nodes, edges[t].to);
            lemma_row_contains(nodes, edges, t, a, b);
            assert(adj@[a]@ == spec_adjacency_row(nodes, edges, a));
            let e = choose|e: int| 0 <= e < adj@[a]@.len() && adj@[a]@[e] == b as usize;
            let ca = ids@[a] as int;
            assert(component_of(comps, a as usize, ca));
            let k = choose|k: int| 0 <= k < comps[ca]@.len() && comps[ca]@[k] == a as usize;
            assert(adj@[comps[ca]@[k] as int]@[e] == b as usize);
            assert(comp_at_most(comps, adj@[comps[ca]@[k] as int]@[e], ca));
            let c2 = choose|c2: int| 0 <= c2 <= ca && #[trigger] comps[c2]@.contains(b as usize);
            let cb = ids@[b] as int;
            assert(component_of(comps, b as usize, cb));
            let k1 = choose|k1: int| 0 <= k1 < comps[c2]@.len() && comps[c2]@[k1] == b as usize;
            let k2 = choose|k2: int| 0 <= k2 < comps[cb]@.len() && comps[cb]@[k2] == b as usize;
            assert(components_disjoint(comps));
            assert(comps[c2]@[k1] == comps[cb]@[k2]);
        }
        assert forall|a: int, b: int|
            0 <= a < nodes.len() && 0 <= b < nodes.len() && #[trigger] graph_reaches(nodes, edges, a, b)
                && #[trigger] graph_reaches(nodes, edges, b, a) implies ids@[a] == ids@[b] by {
            let w1 = choose|w: Seq<int>| #[trigger] is_graph_walk(nodes, edges, w) && w[0] == a && w.last() == b;
            let w2 = choose|w: Seq<int>| #[trigger] is_graph_walk(nodes, edges, w) && w[0] == b && w.last() == a;
            lemma_walk_ids(nodes, edges, ids@, w1);
            lemma_walk_ids(nodes, edges, ids@, w2);
        }
        assert forall|a: int, b: int|
            #![trigger ids@[a], ids@[b]]
            0 <= a < nodes.len() && 0 <= b < nodes.len() && ids@[a] == ids@[b] implies graph_reaches(nodes, edges, a, b) by {
            let c = ids@[a] as int;
            assert(component_of(comps, a as usize, c));
            assert(component_of(comps, b as usize, ids@[b] as int));
            let k1 = choose|k1: int| 0 <= k1 < comps[c]@.len() && comps[c]@[k1] == a as usize;
            let k2 = choose|k2: int| 0 <= k2 < comps[c]@.len() && comps[c]@[k2] == b as usize;
            assert(adj_reaches(adj@, comps[c]@[k1] as int, comps[c]@[k2] as int));
            lemma_adj_to_graph(adj@, nodes, edges, a, b);
        }
    }
    let (succ, pred, loops) = build_component_edges(graph, &ids, count);
    let buckets = bucket_nodes(&graph.nodes, &ids, count);
    proof {
        assert forall|c: int, k: int| 0 <= c < count && 0 <= k < succ@[c]@.len() implies #[trigger] succ@[c]@[k]
            < count by {
            let d = succ@[c]@[k];
            assert(succ@[c]@.contains(d));
            let t = choose|t: int| 0 <= t < graph.edges@.len() && component_edge(graph.nodes@, #[trigger] graph.edges@[t], ids@, c, d as int);
            let (a, b) = spec_edge_ends(graph.nodes@, graph.edges@[t])->0;
            lemma_last_node_index(graph.nodes@, graph.edges@[t].to);
        }
        assert forall|c: int, k: int| 0 <= c < count && 0 <= k < pred@[c]@.len() implies #[trigger] pred@[c]@[k]
            < count by {
            let d = pred@[c]@[k];
            assert(pred@[c]@.contains(d));
            let t = choose|t: int| 0 <= t < graph.edges@.len() && component_edge(graph.nodes@, #[trigger] graph.edges@[t], ids@, d as int, c);
            lemma_last_node_index(graph.nodes@, graph.edges@[t].from);
        }
    }
    proof {
        let nodes = graph.nodes@;
        let edges = graph.edges@;
        assert forall|c: int, k: int| 0 <= c < count && 0 <= k < pred@[c]@.len() implies #[trigger] pred@[c]@[k] > c by {
            let d = pred@[c]@[k];
            assert(pred@[c]@.contains(d));
            let t = choose|t: int| 0 <= t < edges.len() && component_edge(nodes, #[trigger] edges[t], ids@, d as int, c);
            let (a, b) = spec_edge_ends(nodes, edges[t])->0;
            assert(ids@[b] <= ids@[a]);
        }
        assert forall|c: int, k: int| 0 <= c < count && 0 <= k < pred@[c]@.len() implies #[trigger] succ@[
            pred@[c]@[k] as int]@.contains(c as usize) by {
            let d = pred@[c]@[k];
            assert(pred@[c]@.contains(d));
            assert(spec_component_successor(nodes, edges, ids@, d as int, c));
            assert(d < count);
        }
    }
    let topo = build_component_topo_order(&succ, &pred, count);
    let ghost succ0 = succ@;
    let ghost pred0 = pred@;
    let mut succ = succ;
    let mut pred = pred;
    let mut components: Vec<SalsaSemanticGraphSccComponentSummary> = Vec::new();
    let mut c: usize = 0;
    while c < count
        invariant
            count == st.components@.len(),
            st.wf(n as nat),
            n == graph.nodes@.len(),
            ids@.len() == n,
            forall|i: int| 0 <= i < n ==> component_of(st.components@, i as usize, #[trigger] ids@[i] as int),
            c <= count,
            succ0.len() == count,
            pred0.len() == count,
            succ@ == succ0.skip(c as int),
            pred@ == pred0.skip(c as int),
            loops@.len() == count,
            buckets@.len() == count,
            forall|c: int| 0 <= c < count ==> strictly_sorted_usize(#[trigger] succ0[c]@),
            forall|c: int| 0 <= c < count ==> strictly_sorted_usize(#[trigger] pred0[c]@),
            forall|c: int, d: usize|
                0 <= c < count ==> (#[trigger] succ0[c]@.contains(d) <==> spec_component_successor(
                    graph.nodes@,
                    graph.edges@,
                    ids@,
                    c,
                    d as int,
                )),
            forall|c: int, d: usize|
                0 <= c < count ==> (#[trigger] pred0[c]@.contains(d) <==> spec_component_successor(
                    graph.nodes@,
                    graph.edges@,
                    ids@,
                    d as int,
                    c,
                )),
            forall|c: int|
                0 <= c < count ==> (#[trigger] loops@[c] <==> spec_component_self_loop(
                    graph.nodes@,
                    graph.edges@,
                    ids@,
                    c,
                )),
            forall|c: int|
                0 <= c < count ==> #[trigger] buckets@[c]@ == nodes_in_component(graph.nodes@, ids@, c, n as int),
            forall|t: int| #![trigger spec_edge_ends(graph.nodes@, graph.edges@[t])]
                0 <= t < graph.edges@.len() && spec_edge_ends(graph.nodes@, graph.edges@[t]) is Some ==> {
                    let (a, b) = spec_edge_ends(graph.nodes@, graph.edges@[t])->0;
                    ids@[b] <= ids@[a]
                },
            forall|a: int, b: int|
                0 <= a < graph.nodes@.len() && 0 <= b < graph.nodes@.len() && #[trigger] graph_reaches(graph.nodes@, graph.edges@, a, b)
                    && #[trigger] graph_reaches(graph.nodes@, graph.edges@, b, a) ==> ids@[a] == ids@[b],
            forall|a: int, b: int|
                #![trigger ids@[a], ids@[b]]
                0 <= a < graph.nodes@.len() && 0 <= b < graph.nodes@.len() && ids@[a] == ids@[b] ==> graph_reaches(
                    graph.nodes@,
                    graph.edges@,
                    a,
                    b,
                ),
            components@.len() == c,
            forall|j: int|
                0 <= j < c ==> {
                    let comp = #[trigger] components@[j];
                    let members = nodes_in_component(graph.nodes@, ids@, j, n as int);
                    &&& comp.component_id == j
                    &&& nodes_sorted(comp.nodes@)
                    &&& comp.nodes@.to_multiset() == members.to_multiset()
                    &&& members.len() > 0
                    &&& comp.successor_component_ids == succ0[j]
                    &&& comp.predecessor_component_ids == pred0[j]
                    &&& comp.successor_component_ids@ == succ0[j]@
                    &&& comp.predecessor_component_ids@ == pred0[j]@
                    &&& comp.is_cycle == (loops@[j] || members.len() > 1)
                },
        decreases count - c,
    {
        let sorted = sort_nodes(&buckets[c]);
        let size = buckets[c].len();
        proof {
            assert(st.component_sizes@[c as int] == st.components@[c as int]@.len());
            let x = st.components@[c as int]@[0];
            assert(x < n);
            assert(component_of(st.components@, x, ids@[x as int] as int));
            let t = choose|t: int| 0 <= t < st.components@[ids@[x as int] as int]@.len() && st.components@[ids@[x as int] as int]@[t] == x;
            assert(st.components@[ids@[x as int] as int]@[t] == st.components@[c as int]@[0]);
            assert(ids@[x as int] == c);
            lemma_nodes_in_component_nonempty(graph.nodes@, ids@, c as int, n as int, x as int);
        }
        assert(succ@[0] == succ0[c as int]);
        assert(pred@[0] == pred0[c as int]);
        let s_row = succ.remove(0);
        let p_row = pred.remove(0);
        assert(succ@ =~= succ0.skip(c + 1));
        assert(pred@ =~= pred0.skip(c + 1));
        let comp = SalsaSemanticGraphSccComponentSummary {
            component_id: c,
            nodes: sorted,
            successor_component_ids: s_row,
            predecessor_component_ids: p_row,
            is_cycle: loops[c] || size > 1,
        };
        proof {
        }
        components.push(comp);
        c = c + 1;
    }
    let r = SalsaSemanticGraphSccIndex {
        components,
        topo_order: topo,
        node_order: graph.nodes.clone(),
        node_component_ids: ids,
    };
    proof {
        assert(r.node_order@ =~= graph.nodes@);
        assert(r.components@.map_values(|x: SalsaSemanticGraphSccComponentSummary| x.predecessor_component_ids) =~= pred0);
        assert(r.components@.map_values(|x: SalsaSemanticGraphSccComponentSummary| x.successor_component_ids) =~= succ0);
        assert forall|k: int, p: usize|
            0 <= k < r.topo_order@.len() && spec_component_successor(graph.nodes@, graph.edges@, ids@, p as int, r.topo_order@[k] as int)
                implies #[trigger] r.topo_order@.take(k).contains(p) by {
            let d = r.topo_order@[k];
            assert(pred0[d as int]@.contains(p));
            let q = choose|q: int| 0 <= q < pred0[d as int]@.len() && pred0[d as int]@[q] == p;
            assert(r.topo_order@.take(k).contains(pred0[d as int]@[q]));
        }
        assert forall|c: int| 0 <= c < count implies {
            let comp = #[trigger] r.components@[c];
            let members = nodes_in_component(graph.nodes@, ids@, c, graph.nodes@.len() as int);
            &&& forall|d: usize|
                #[trigger] comp.successor_component_ids@.contains(d) <==> spec_component_successor(
                    graph.nodes@,
                    graph.edges@,
                    ids@,
                    c,
                    d as int,
                )
            &&& forall|d: usize|
                #[trigger] comp.predecessor_component_ids@.contains(d) <==> spec_component_successor(
                    graph.nodes@,
                    graph.edges@,
                    ids@,
                    d as int,
                    c,
                )
            &&& strictly_sorted_usize(comp.successor_component_ids@)
            &&& strictly_sorted_usize(comp.predecessor_component_ids@)
        } by {
            assert(r.components@[c].successor_component_ids@ == succ0[c]@);
            assert(r.components@[c].predecessor_component_ids@ == pred0[c]@);
        }
    }
    r
}

} // verus!

verus! {

pub struct SccComponentView {
    pub component_id: usize,
    pub nodes: Seq<SalsaSemanticGraphNodeSummary>,
    pub successor_component_ids: Seq<usize>,
    pub predecessor_component_ids: Seq<usize>,
    pub is_cycle: bool,
}

impl View for SalsaSemanticGraphSccComponentSummary {
    type V = SccComponentView;

    open spec fn view(&self) -> SccComponentView {
        SccComponentView {
            component_id: self.component_id,
            nodes: self.nodes@,
            successor_component_ids: self.successor_component_ids@,
            predecessor_component_ids: self.predecessor_component_ids@,
            is_cycle: self.is_cycle,
        }
    }
}

pub open spec fn opt_component_view(c: Option<SalsaSemanticGraphSccComponentSummary>) -> Option<SccComponentView> {
    match c {
        Some(c) => Some(c@),
        None => None,
    }
}

pub fn clone_scc_component(c: &SalsaSemanticGraphSccComponentSummary) -> (r: SalsaSemanticGraphSccComponentSummary)
    ensures
        r@ == c@,
{
    let r = SalsaSemanticGraphSccComponentSummary {
        component_id: c.component_id,
        nodes: c.nodes.clone(),
        successor_component_ids: c.successor_component_ids.clone(),
        predecessor_component_ids: c.predecessor_component_ids.clone(),
        is_cycle: c.is_cycle,
    };
    assert(r.nodes@ =~= c.nodes@);
    assert(r.successor_component_ids@ =~= c.successor_component_ids@);
    assert(r.predecessor_component_ids@ =~= c.predecessor_component_ids@);
    r
}

/// The component numbered `component_id`.
pub fn find_semantic_graph_scc_component_by_id(index: &SalsaSemanticGraphSccIndex, component_id: usize) -> (r: Option<
    SalsaSemanticGraphSccComponentSummary,
>)
    ensures
        opt_component_view(r) == if component_id < index.components@.len() {
            Some(index.components@[component_id as int]@)
        } else {
            None
        },
{
    if component_id < index.components.len() {
        Some(clone_scc_component(&index.components[component_id]))
    } else {
        None
    }
}

/// Index of the first occurrence of `node` in `s`, or -1.
pub open spec fn first_node_index(s: Seq<SalsaSemanticGraphNodeSummary>, node: SalsaSemanticGraphNodeSummary) -> int
    decreases s.len(),
{
    if s.len() == 0 {
        -1
    } else if s[0] == node {
        0
    } else {
        let r = first_node_index(s.drop_first(), node);
        if r == -1 { -1 } else { r + 1 }
    }
}

proof fn lemma_first_node_index(s: Seq<SalsaSemanticGraphNodeSummary>, node: SalsaSemanticGraphNodeSummary)
    ensures
        -1 <= first_node_index(s, node) < s.len(),
        first_node_index(s, node) >= 0 ==> s[first_node_index(s, node)] == node,
        forall|j: int|
            0 <= j < s.len() && (first_node_index(s, node) == -1 || j < first_node_index(s, node)) ==> s[j] != node,
    decreases s.len(),
{
    if s.len() > 0 && s[0] != node {
        lemma_first_node_index(s.drop_first(), node);
        assert forall|j: int|
            0 <= j < s.len() && (first_node_index(s, node) == -1 || j < first_node_index(s, node)) implies s[j]
                != node by {
            if j > 0 {
                assert(s[j] == s.drop_first()[j - 1]);
            }
        }
    }
}

/// The component of `node`: that of its first occurrence among the graph's nodes.
pub open spec fn spec_component_of_node(index: SalsaSemanticGraphSccIndex, node: SalsaSemanticGraphNodeSummary) -> Option<
    SccComponentView,
> {
    let i = first_node_index(index.node_order@, node);
    if 0 <= i < index.node_component_ids@.len() && index.node_component_ids@[i] < index.components@.len() {
        Some(index.components@[index.node_component_ids@[i] as int]@)
    } else {
        None
    }
}

/// The component that holds `node`.
pub fn find_semantic_graph_scc_component(
    index: &SalsaSemanticGraphSccIndex,
    node: &SalsaSemanticGraphNodeSummary,
) -> (r: Option<SalsaSemanticGraphSccComponentSummary>)
    ensures
        opt_component_view(r) == spec_component_of_node(*index, *node),
{
    proof { lemma_first_node_index(index.node_order@, *node); }
    let mut i: usize = 0;
    while i < index.node_order.len()
        invariant
            i <= index.node_order@.len(),
            forall|j: int| 0 <= j < i ==> index.node_order@[j] != *node,
            -1 <= first_node_index(index.node_order@, *node) < index.node_order@.len(),
            first_node_index(index.node_order@, *node) >= 0 ==> index.node_order@[first_node_index(
                index.node_order@,
                *node,
            )] == *node,
            forall|j: int|
                0 <= j < index.node_order@.len() && (first_node_index(index.node_order@, *node) == -1 || j
                    < first_node_index(index.node_order@, *node)) ==> index.node_order@[j] != *node,
        decreases index.node_order@.len() - i,
    {
        if index.node_order[i] == *node {
            if i < index.node_component_ids.len() {
                let c = index.node_component_ids[i];
                if c < index.components.len() {
                    return Some(clone_scc_component(&index.components[c]));
                }
            }
            return None;
        }
        i = i + 1;
    }
    None
}

/// The components that a component's list names, skipping numbers that name none.
pub open spec fn spec_components_named(index: SalsaSemanticGraphSccIndex, ids: Seq<usize>) -> Seq<SccComponentView> {
    ids.filter_map(
        |d: usize|
            if d < index.components@.len() {
                Some(index.components@[d as int]@)
            } else {
                None
            },
    )
}

fn components_named(index: &SalsaSemanticGraphSccIndex, ids: &Vec<usize>) -> (r: Vec<
    SalsaSemanticGraphSccComponentSummary,
>)
    ensures
        r@.map_values(|c: SalsaSemanticGraphSccComponentSummary| c@) == spec_components_named(*index, ids@),
{
    let mut r: Vec<SalsaSemanticGraphSccComponentSummary> = Vec::new();
    let mut i: usize = 0;
    while i < ids.len()
        invariant
            i <= ids@.len(),
            r@.map_values(|c: SalsaSemanticGraphSccComponentSummary| c@) == spec_components_named(
                *index,
                ids@.take(i as int),
            ),
        decreases ids@.len() - i,
    {
        let ghost before = r@;
        assert(ids@.take(i + 1).drop_last() =~= ids@.take(i as int));
        assert(ids@.take(i + 1).last() == ids@[i as int]);
        let d = ids[i];
        if d < index.components.len() {
            r.push(clone_scc_component(&index.components[d]));
            assert(r@.map_values(|c: SalsaSemanticGraphSccComponentSummary| c@) =~= before.map_values(
                |c: SalsaSemanticGraphSccComponentSummary| c@,
            ).push(index.components@[d as int]@));
        }
        i = i + 1;
    }
    assert(ids@.take(i as int) =~= ids@);
    r
}

/// The components that the edges of component `component_id` lead to.
pub fn collect_semantic_graph_scc_successor_components(index: &SalsaSemanticGraphSccIndex, component_id: usize) -> (r:
    Vec<SalsaSemanticGraphSccComponentSummary>)
    ensures
        r@.map_values(|c: SalsaSemanticGraphSccComponentSummary| c@) == if component_id < index.components@.len() {
            spec_components_named(*index, index.components@[component_id as int].successor_component_ids@)
        } else {
            Seq::empty()
        },
{
    if component_id < index.components.len() {
        components_named(index, &index.components[component_id].successor_component_ids)
    } else {
        let r: Vec<SalsaSemanticGraphSccComponentSummary> = Vec::new();
        assert(r@.map_values(|c: SalsaSemanticGraphSccComponentSummary| c@) =~= Seq::empty());
        r
    }
}

/// The components whose edges lead to component `component_id`.
pub fn collect_semantic_graph_scc_predecessor_components(index: &SalsaSemanticGraphSccIndex, component_id: usize) -> (r:
    Vec<SalsaSemanticGraphSccComponentSummary>)
    ensures
        r@.map_values(|c: SalsaSemanticGraphSccComponentSummary| c@) == if component_id < index.components@.len() {
            spec_components_named(*index, index.components@[component_id as int].predecessor_component_ids@)
        } else {
            Seq::empty()
        },
{
    if component_id < index.components.len() {
        components_named(index, &index.components[component_id].predecessor_component_ids)
    } else {
        let r: Vec<SalsaSemanticGraphSccComponentSummary> = Vec::new();
        assert(r@.map_values(|c: SalsaSemanticGraphSccComponentSummary| c@) =~= Seq::empty());
        r
    }
}

/// Indexes the semantic graph for edge queries and finds its components.
pub fn build_semantic_graph_query_index(graph: &SalsaSemanticGraphSummary) -> (r: SalsaSemanticGraphQueryIndex)
    ensures
        r.graph.nodes@ == graph.nodes@,
        r.graph.edges@ == graph.edges@,
        spec_scc_index(*graph, r.scc),
{
    let g = SalsaSemanticGraphSummary { nodes: graph.nodes.clone(), edges: graph.edges.clone() };
    assert(g.nodes@ =~= graph.nodes@);
    assert(g.edges@ =~= graph.edges@);
    SalsaSemanticGraphQueryIndex { graph: g, scc: build_semantic_graph_scc_index(graph) }
}

} // verus!
