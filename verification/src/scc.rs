//! Tarjan's algorithm over an adjacency list: the strongly connected components
//! of a graph, each found once, in the order in which their roots finish.
use vstd::prelude::*;

verus! {

/// Every successor listed is a node of the graph.
pub open spec fn adjacency_ok(adj: Seq<Vec<usize>>) -> bool {
    forall|i: int, j: int| 0 <= i < adj.len() && 0 <= j < adj[i]@.len() ==> #[trigger] adj[i]@[j] < adj.len()
}

/// The number of nodes not yet visited.
pub open spec fn count_unvisited(s: Seq<Option<usize>>) -> nat
    decreases s.len(),
{
    if s.len() == 0 {
        0
    } else {
        count_unvisited(s.drop_last()) + if s.last() is None { 1nat } else { 0nat }
    }
}

proof fn lemma_count_unvisited_update(s: Seq<Option<usize>>, v: int, k: usize)
    requires
        0 <= v < s.len(),
        s[v] is None,
    ensures
        count_unvisited(s) >= 1,
        count_unvisited(s.update(v, Some(k))) == count_unvisited(s) - 1,
    decreases s.len(),
{
    let t = s.update(v, Some(k));
    if v == s.len() - 1 {
        assert(t.drop_last() =~= s.drop_last());
    } else {
        lemma_count_unvisited_update(s.drop_last(), v, k);
        assert(t.drop_last() =~= s.drop_last().update(v, Some(k)));
    }
}

proof fn lemma_count_unvisited_none(s: Seq<Option<usize>>)
    requires
        forall|i: int| 0 <= i < s.len() ==> s[i] is None,
    ensures
        count_unvisited(s) == s.len(),
    decreases s.len(),
{
    if s.len() > 0 {
        lemma_count_unvisited_none(s.drop_last());
    }
}

/// Whether `x` is in one of the components found so far.
pub open spec fn in_components(comps: Seq<Vec<usize>>, x: usize) -> bool {
    exists|c: int, k: int| 0 <= c < comps.len() && 0 <= k < comps[c]@.len() && comps[c]@[k] == x
}

/// No node is in two places of the components.
pub open spec fn components_disjoint(comps: Seq<Vec<usize>>) -> bool {
    forall|c1: int, k1: int, c2: int, k2: int|
        0 <= c1 < comps.len() && 0 <= k1 < comps[c1]@.len() && 0 <= c2 < comps.len() && 0 <= k2
            < comps[c2]@.len() && #[trigger] comps[c1]@[k1] == #[trigger] comps[c2]@[k2] ==> c1 == c2 && k1 == k2
}

/// `w` is a walk in the adjacency list: each node lists the next as a successor.
pub open spec fn adj_walk(adj: Seq<Vec<usize>>, w: Seq<int>) -> bool {
    &&& w.len() >= 1
    &&& forall|i: int| 0 <= i < w.len() ==> 0 <= #[trigger] w[i] < adj.len()
    &&& forall|i: int| 0 <= i < w.len() - 1 ==> #[trigger] adj[w[i]]@.contains(w[i + 1] as usize)
}

/// Node `b` can be reached from node `a` by zero or more edges.
#[verifier::opaque]
pub open spec fn adj_reaches(adj: Seq<Vec<usize>>, a: int, b: int) -> bool {
    exists|w: Seq<int>| #[trigger] adj_walk(adj, w) && w[0] == a && w.last() == b
}

pub proof fn lemma_reaches_refl(adj: Seq<Vec<usize>>, a: int)
    requires
        0 <= a < adj.len(),
    ensures
        adj_reaches(adj, a, a),
{
    reveal(adj_reaches);
    let w = seq![a];
    assert(adj_walk(adj, w));
}

pub proof fn lemma_reaches_trans(adj: Seq<Vec<usize>>, a: int, b: int, c: int)
    requires
        adj_reaches(adj, a, b),
        adj_reaches(adj, b, c),
    ensures
        adj_reaches(adj, a, c),
{
    reveal(adj_reaches);
    let w1 = choose|w: Seq<int>| #[trigger] adj_walk(adj, w) && w[0] == a && w.last() == b;
    let w2 = choose|w: Seq<int>| #[trigger] adj_walk(adj, w) && w[0] == b && w.last() == c;
    let w = w1 + w2.drop_first();
    assert forall|i: int| 0 <= i < w.len() - 1 implies #[trigger] adj[w[i]]@.contains(w[i + 1] as usize) by {
        if i < w1.len() - 1 {
            assert(w[i] == w1[i] && w[i + 1] == w1[i + 1]);
        } else if i == w1.len() - 1 {
            assert(w[i] == b && w[i + 1] == w2[1]);
            assert(w2[0] == b);
        } else {
            let j = i - w1.len() + 1;
            assert(w[i] == w2[j] && w[i + 1] == w2[j + 1]);
        }
    }
    if w2.len() == 1 {
        assert(w =~= w1);
    } else {
        assert(w.last() == w2.last());
    }
    assert(adj_walk(adj, w));
}

pub proof fn lemma_reaches_edge(adj: Seq<Vec<usize>>, a: int, b: int)
    requires
        0 <= a < adj.len(),
        adj[a]@.contains(b as usize),
        0 <= b < adj.len(),
    ensures
        adj_reaches(adj, a, b),
{
    reveal(adj_reaches);
    let w = seq![a, b];
    assert(adj[w[0]]@.contains(w[1] as usize));
    assert(adj_walk(adj, w));
}

proof fn lemma_witness_intro(st: TarjanSccBuilder, adj: Seq<Vec<usize>>, x: int, y: usize)
    requires
        st.stack@.contains(y),
        st.index_of(y as int) == st.low_links@[x],
        adj_reaches(adj, x, y as int),
    ensures
        st.low_witnessed(adj, x),
{
    reveal(TarjanSccBuilder::low_witnessed);
}

proof fn lemma_witness_elim(st: TarjanSccBuilder, adj: Seq<Vec<usize>>, x: int) -> (y: usize)
    requires
        st.low_witnessed(adj, x),
    ensures
        st.stack@.contains(y),
        st.index_of(y as int) == st.low_links@[x],
        adj_reaches(adj, x, y as int),
{
    reveal(TarjanSccBuilder::low_witnessed);
    choose|y: usize|
        #[trigger] st.stack@.contains(y) && st.index_of(y as int) == st.low_links@[x] && adj_reaches(adj, x, y as int)
}

/// Every two nodes of one component reach each other.
pub open spec fn components_strong(adj: Seq<Vec<usize>>, comps: Seq<Vec<usize>>) -> bool {
    forall|c: int, k1: int, k2: int|
        0 <= c < comps.len() && 0 <= k1 < comps[c]@.len() && 0 <= k2 < comps[c]@.len() ==> adj_reaches(
            adj,
            #[trigger] comps[c]@[k1] as int,
            #[trigger] comps[c]@[k2] as int,
        )
}

/// Node `y` is in one of the components up to position `c`.
pub open spec fn comp_at_most(comps: Seq<Vec<usize>>, y: usize, c: int) -> bool {
    exists|c2: int| 0 <= c2 <= c && #[trigger] comps[c2]@.contains(y)
}

/// Every edge from a node of a component leads to a node of the same or an
/// earlier component.
pub open spec fn closed_components(adj: Seq<Vec<usize>>, comps: Seq<Vec<usize>>) -> bool {
    forall|c: int, k: int, e: int|
        0 <= c < comps.len() && 0 <= k < comps[c]@.len() && 0 <= e < adj[comps[c]@[k] as int]@.len() ==> comp_at_most(
            comps,
            #[trigger] adj[#[trigger] comps[c]@[k] as int]@[e],
            c,
        )
}

/// The state of a run of Tarjan's algorithm.
pub struct TarjanSccBuilder {
    pub next_index: usize,
    pub stack: Vec<usize>,
    pub on_stack: Vec<bool>,
    pub indices: Vec<Option<usize>>,
    pub low_links: Vec<usize>,
    pub components: Vec<Vec<usize>>,
    pub component_sizes: Vec<usize>,
}

impl TarjanSccBuilder {
    pub open spec fn visited(&self, i: int) -> bool {
        self.indices@[i] is Some
    }

    pub open spec fn index_of(&self, i: int) -> usize {
        self.indices@[i]->0
    }

    /// The state is consistent for a graph of `n` nodes, apart from where the
    /// visited nodes are.
    pub open spec fn wf_core(&self, n: nat) -> bool {
        &&& self.indices@.len() == n
        &&& self.on_stack@.len() == n
        &&& self.low_links@.len() == n
        &&& count_unvisited(self.indices@) + self.next_index == n
        &&& self.stack@.no_duplicates()
        &&& forall|k: int| 0 <= k < self.stack@.len() ==> #[trigger] self.stack@[k] < n
        &&& forall|i: int| 0 <= i < n ==> (#[trigger] self.on_stack@[i] <==> self.stack@.contains(i as usize))
        &&& forall|k: int| 0 <= k < self.stack@.len() ==> self.visited(#[trigger] self.stack@[k] as int)
        &&& forall|i: int|
            0 <= i < n && #[trigger] self.visited(i) ==> self.index_of(i) < self.next_index && self.low_links@[i]
                <= self.index_of(i)
        &&& forall|c: int, k: int|
            0 <= c < self.components@.len() && 0 <= k < self.components@[c]@.len() ==> {
                let x = #[trigger] self.components@[c]@[k];
                &&& x < n
                &&& self.visited(x as int)
                &&& !self.on_stack@[x as int]
            }
        &&& components_disjoint(self.components@)
        &&& self.component_sizes@.len() == self.components@.len()
        &&& forall|c: int|
            0 <= c < self.components@.len() ==> #[trigger] self.component_sizes@[c] == self.components@[c]@.len()
                && self.components@[c]@.len() > 0
    }

    /// Every visited node is on the stack or in a component.
    pub open spec fn covered(&self, n: nat) -> bool {
        forall|i: int|
            0 <= i < n && #[trigger] self.visited(i) ==> self.on_stack@[i] || in_components(
                self.components@,
                i as usize,
            )
    }

    /// The state is consistent for a graph of `n` nodes.
    pub open spec fn wf(&self, n: nat) -> bool {
        self.wf_core(n) && self.covered(n)
    }

    /// The nodes on the stack are in the order of their visits.
    pub open spec fn order_ok(&self) -> bool {
        forall|a: int, b: int|
            0 <= a < b < self.stack@.len() ==> self.index_of(#[trigger] self.stack@[a] as int) < self.index_of(
                #[trigger] self.stack@[b] as int,
            )
    }

    /// Node `x` has been left: each successor was visited, and a successor still
    /// on the stack has an index no smaller than the low link of `x`.
    pub open spec fn done(&self, adj: Seq<Vec<usize>>, x: int) -> bool {
        forall|e: int|
            0 <= e < adj[x]@.len() ==> self.visited(#[trigger] adj[x]@[e] as int) && (self.on_stack@[adj[x]@[e] as int]
                ==> self.low_links@[x] <= self.index_of(adj[x]@[e] as int))
    }

    /// The low link of `x` is the index of a node on the stack that `x` reaches.
    #[verifier::opaque]
    pub open spec fn low_witnessed(&self, adj: Seq<Vec<usize>>, x: int) -> bool {
        exists|y: usize|
            #[trigger] self.stack@.contains(y) && self.index_of(y as int) == self.low_links@[x] && adj_reaches(adj, x, y as int)
    }

    /// Every node on the stack has its low link witnessed.
    pub open spec fn witnessed_ok(&self, adj: Seq<Vec<usize>>) -> bool {
        forall|k: int| 0 <= k < self.stack@.len() ==> self.low_witnessed(adj, #[trigger] self.stack@[k] as int)
    }

    /// Every node on the stack was visited in the round that started at `base`.
    pub open spec fn round_ok(&self, n: nat, base: usize) -> bool {
        &&& base <= self.next_index
        &&& forall|k: int| 0 <= k < self.stack@.len() ==> self.index_of(#[trigger] self.stack@[k] as int) >= base
        &&& forall|i: int|
            0 <= i < n && #[trigger] self.visited(i) && self.index_of(i) >= base ==> self.low_links@[i] >= base
    }
}

fn new_builder(n: usize) -> (r: TarjanSccBuilder)
    ensures
        r.wf(n as nat),
        r.stack@.len() == 0,
        r.next_index == 0,
        forall|i: int| 0 <= i < n ==> !r.visited(i),
{
    let mut on_stack: Vec<bool> = Vec::new();
    let mut indices: Vec<Option<usize>> = Vec::new();
    let mut low_links: Vec<usize> = Vec::new();
    let mut i: usize = 0;
    while i < n
        invariant
            i <= n,
            on_stack@.len() == i,
            indices@.len() == i,
            low_links@.len() == i,
            forall|j: int| 0 <= j < i ==> !(#[trigger] on_stack@[j]),
            forall|j: int| 0 <= j < i ==> (#[trigger] indices@[j]) is None,
        decreases n - i,
    {
        on_stack.push(false);
        indices.push(None);
        low_links.push(0);
        i = i + 1;
    }
    proof { lemma_count_unvisited_none(indices@); }
    let r = TarjanSccBuilder {
        next_index: 0,
        stack: Vec::new(),
        on_stack,
        indices,
        low_links,
        components: Vec::new(),
        component_sizes: Vec::new(),
    };
    assert forall|i: int| 0 <= i < n implies (#[trigger] r.on_stack@[i] <==> r.stack@.contains(i as usize)) by {
        assert(!r.on_stack@[i]);
    }
    assert forall|i: int| 0 <= i < n && #[trigger] r.visited(i) implies r.on_stack@[i] || in_components(
        r.components@,
        i as usize,
    ) by {
        assert(r.indices@[i] is None);
    }
    assert forall|i: int|
        0 <= i < n && #[trigger] r.visited(i) implies r.index_of(i) < r.next_index && r.low_links@[i]
            <= r.index_of(i) by {
        assert(r.indices@[i] is None);
    }
    r
}

} // verus!

verus! {

/// Pops the stack down to `v`, which sits at position `p`, and records the popped
/// nodes as one component.
fn pop_component(st: &mut TarjanSccBuilder, v: usize, Ghost(n): Ghost<nat>, Ghost(p): Ghost<int>)
    requires
        old(st).wf(n),
        n <= usize::MAX,
        0 <= p < old(st).stack@.len(),
        old(st).stack@[p] == v,
    ensures
        final(st).wf(n),
        final(st).stack@ == old(st).stack@.take(p),
        final(st).indices@ == old(st).indices@,
        final(st).low_links@ == old(st).low_links@,
        final(st).next_index == old(st).next_index,
        final(st).components@.len() == old(st).components@.len() + 1,
        forall|c: int| 0 <= c < old(st).components@.len() ==> #[trigger] final(st).components@[c] == old(st).components@[c],
        forall|x: usize| #[trigger] final(st).components@[old(st).components@.len() as int]@.contains(x) <==> old(
            st,
        ).stack@.subrange(p, old(st).stack@.len() as int).contains(x),
{
    let ghost entry = *st;
    let mut component: Vec<usize> = Vec::new();
    let mut done = false;
    while !done
        invariant
            st.wf_core(n),
            n <= usize::MAX,
            0 <= p,
            st.indices@ == entry.indices@,
            st.low_links@ == entry.low_links@,
            st.next_index == entry.next_index,
            st.components@ == entry.components@,
            st.component_sizes@ == entry.component_sizes@,
            st.stack@.len() >= p,
            st.stack@.take(p) == entry.stack@.take(p),
            st.stack@.len() <= entry.stack@.len(),
            st.stack@ == entry.stack@.take(st.stack@.len() as int),
            forall|y: usize| #[trigger] component@.contains(y) <==> entry.stack@.subrange(
                st.stack@.len() as int,
                entry.stack@.len() as int,
            ).contains(y),
            done ==> st.stack@.len() == p,
            !done ==> st.stack@.len() > p && st.stack@[p] == v,
            component@.no_duplicates(),
            done ==> component@.len() > 0,
            forall|k: int| 0 <= k < component@.len() ==> {
                let x = #[trigger] component@[k];
                &&& x < n
                &&& st.visited(x as int)
                &&& !st.on_stack@[x as int]
                &&& !in_components(st.components@, x)
            },
            forall|i: int|
                0 <= i < n && #[trigger] st.visited(i) ==> st.on_stack@[i] || in_components(
                    st.components@,
                    i as usize,
                ) || component@.contains(i as usize),
        decreases st.stack@.len() + if done { 0int } else { 1int },
    {
        let ghost before = *st;
        let ghost comp_before = component@;
        let x = st.stack.pop().unwrap();
        let ghost top = before.stack@.len() - 1;
        assert(before.stack@[top] == x);
        assert(st.stack@ =~= before.stack@.take(top));
        assert(!st.stack@.contains(x)) by {
            if st.stack@.contains(x) {
                let k = choose|k: int| 0 <= k < st.stack@.len() && st.stack@[k] == x;
                assert(before.stack@[k] == before.stack@[top]);
            }
        }
        assert(!in_components(st.components@, x)) by {
            if in_components(st.components@, x) {
                let (c, k) = choose|c: int, k: int|
                    #![trigger st.components@[c]@[k]]
                    0 <= c < st.components@.len() && 0 <= k < st.components@[c]@.len() && st.components@[c]@[k] == x;
                assert(!before.on_stack@[st.components@[c]@[k] as int]);
                assert(before.stack@.contains(x)) by { assert(before.stack@[top] == x); }
            }
        }
        assert(!component@.contains(x)) by {
            if component@.contains(x) {
                let k = choose|k: int| 0 <= k < component@.len() && component@[k] == x;
                assert(!before.on_stack@[component@[k] as int]);
                assert(before.stack@.contains(x)) by { assert(before.stack@[top] == x); }
            }
        }
        st.on_stack.set(x, false);
        component.push(x);
        proof {
            assert(st.stack@ =~= entry.stack@.take(st.stack@.len() as int));
            let lo = st.stack@.len() as int;
            let hi = entry.stack@.len() as int;
            assert(entry.stack@[lo] == x);
            assert forall|y: usize| #[trigger] component@.contains(y) <==> entry.stack@.subrange(lo, hi).contains(y) by {
                let old_sub = entry.stack@.subrange(lo + 1, hi);
                let new_sub = entry.stack@.subrange(lo, hi);
                if component@.contains(y) {
                    let k = choose|k: int| 0 <= k < component@.len() && component@[k] == y;
                    if k < comp_before.len() {
                        assert(comp_before[k] == y);
                        assert(comp_before.contains(y));
                        let t = choose|t: int| 0 <= t < old_sub.len() && old_sub[t] == y;
                        assert(new_sub[t + 1] == y);
                    } else {
                        assert(new_sub[0] == y);
                    }
                }
                if new_sub.contains(y) {
                    let t = choose|t: int| 0 <= t < new_sub.len() && new_sub[t] == y;
                    if t == 0 {
                        assert(component@[component@.len() - 1] == y);
                    } else {
                        assert(old_sub[t - 1] == y);
                        assert(comp_before.contains(y));
                        let k = choose|k: int| 0 <= k < comp_before.len() && comp_before[k] == y;
                        assert(component@[k] == y);
                    }
                }
            }
        }
        if x == v {
            assert(top == p) by {
                if top != p {
                    assert(before.stack@[top] == before.stack@[p]);
                }
            }
            done = true;
        } else {
            assert(top != p);
        }
        assert(st.stack@.take(p) =~= entry.stack@.take(p)) by {
            assert(before.stack@.take(p) == entry.stack@.take(p));
        }
        assert forall|i: int| 0 <= i < n implies (#[trigger] st.on_stack@[i] <==> st.stack@.contains(i as usize)) by {
            if i != x as int {
                assert(before.on_stack@[i] <==> before.stack@.contains(i as usize));
                if before.stack@.contains(i as usize) {
                    let k = choose|k: int| 0 <= k < before.stack@.len() && before.stack@[k] == i as usize;
                    assert(k != top);
                    assert(st.stack@[k] == i as usize);
                }
            }
        }
        assert forall|k: int| 0 <= k < component@.len() implies {
            let y = #[trigger] component@[k];
            &&& y < n
            &&& st.visited(y as int)
            &&& !st.on_stack@[y as int]
            &&& !in_components(st.components@, y)
        } by {
            if k < comp_before.len() {
                assert(component@[k] == comp_before[k]);
            }
        }
        assert forall|i: int|
            0 <= i < n && #[trigger] st.visited(i) implies st.on_stack@[i] || in_components(
                st.components@,
                i as usize,
            ) || component@.contains(i as usize) by {
            assert(before.visited(i));
            if i == x as int {
                assert(component@[component@.len() - 1] == x);
            } else if before.on_stack@[i] {
                assert(st.on_stack@[i]);
            } else if comp_before.contains(i as usize) {
                let k = choose|k: int| 0 <= k < comp_before.len() && comp_before[k] == i as usize;
                assert(component@[k] == i as usize);
            }
        }
        assert forall|c: int, k: int|
            0 <= c < st.components@.len() && 0 <= k < st.components@[c]@.len() implies {
                let y = #[trigger] st.components@[c]@[k];
                &&& y < n
                &&& st.visited(y as int)
                &&& !st.on_stack@[y as int]
            } by {
            let y = st.components@[c]@[k];
            if y == x {
                assert(in_components(st.components@, x));
            }
        }
    }
    let ghost at_exit = *st;
    let ghost comps_before = st.components@;
    let ghost comp = component@;
    assert(st.stack@.len() == p);
    let size = component.len();
    st.components.push(component);
    st.component_sizes.push(size);
    assert(st.components@[comps_before.len() as int]@ == comp);
    assert(st.component_sizes@[comps_before.len() as int] == comp.len());
    assert(comp.len() > 0);
    assert forall|c: int| 0 <= c < comps_before.len() implies st.components@[c] == comps_before[c] by {}
    assert(components_disjoint(st.components@)) by {
        assert forall|c1: int, k1: int, c2: int, k2: int|
            0 <= c1 < st.components@.len() && 0 <= k1 < st.components@[c1]@.len() && 0 <= c2
                < st.components@.len() && 0 <= k2 < st.components@[c2]@.len() && #[trigger] st.components@[c1]@[k1]
                == #[trigger] st.components@[c2]@[k2] implies c1 == c2 && k1 == k2 by {
            let last = comps_before.len() as int;
            if c1 < last && c2 < last {
                assert(st.components@[c1] == comps_before[c1]);
                assert(st.components@[c2] == comps_before[c2]);
            } else if c1 == last && c2 == last {
            } else if c1 == last {
                assert(st.components@[c2] == comps_before[c2]);
                assert(in_components(comps_before, comp[k1]));
            } else {
                assert(st.components@[c1] == comps_before[c1]);
                assert(in_components(comps_before, comp[k2]));
            }
        }
    }
    assert forall|c: int, k: int|
        0 <= c < st.components@.len() && 0 <= k < st.components@[c]@.len() implies {
            let y = #[trigger] st.components@[c]@[k];
            &&& y < n
            &&& st.visited(y as int)
            &&& !st.on_stack@[y as int]
        } by {
        if c < comps_before.len() {
            assert(st.components@[c] == comps_before[c]);
        }
    }
    assert forall|c: int|
        0 <= c < st.components@.len() implies #[trigger] st.component_sizes@[c] == st.components@[c]@.len()
            && st.components@[c]@.len() > 0 by {
        if c < comps_before.len() {
            assert(st.components@[c] == comps_before[c]);
        }
    }
    assert forall|i: int|
        0 <= i < n && #[trigger] st.visited(i) implies st.on_stack@[i] || in_components(
            st.components@,
            i as usize,
        ) by {
        assert(at_exit.visited(i));
        if in_components(comps_before, i as usize) {
            let (c, k) = choose|c: int, k: int|
                #![trigger comps_before[c]@[k]]
                0 <= c < comps_before.len() && 0 <= k < comps_before[c]@.len() && comps_before[c]@[k] == i as usize;
            assert(st.components@[c]@[k] == i as usize);
        } else if comp.contains(i as usize) {
            let k = choose|k: int| 0 <= k < comp.len() && comp[k] == i as usize;
            assert(st.components@[comps_before.len() as int]@[k] == i as usize);
        }
    }
}

} // verus!

verus! {

/// Lowering the low link of a visited node to a value no smaller than the round's
/// base keeps the state consistent.
#[verifier::spinoff_prover]
proof fn lemma_lower_low_link(a: TarjanSccBuilder, b: TarjanSccBuilder, n: nat, base: usize, v: int, val: usize)
    requires
        a.wf(n),
        a.round_ok(n, base),
        0 <= v < n,
        a.visited(v),
        val <= a.low_links@[v],
        val >= base,
        b.low_links@ == a.low_links@.update(v, val),
        b.indices@ == a.indices@,
        b.stack@ == a.stack@,
        b.on_stack@ == a.on_stack@,
        b.next_index == a.next_index,
        b.components@ == a.components@,
        b.component_sizes@ == a.component_sizes@,
    ensures
        b.wf(n),
        b.round_ok(n, base),
{
    assert forall|i: int|
        0 <= i < n && #[trigger] b.visited(i) implies b.index_of(i) < b.next_index && b.low_links@[i]
            <= b.index_of(i) by {
        assert(a.visited(i));
    }
    assert forall|k: int| 0 <= k < b.stack@.len() implies b.visited(#[trigger] b.stack@[k] as int) by {
        assert(a.visited(a.stack@[k] as int));
    }
    assert forall|c: int, k: int|
        0 <= c < b.components@.len() && 0 <= k < b.components@[c]@.len() implies {
            let x = #[trigger] b.components@[c]@[k];
            &&& x < n
            &&& b.visited(x as int)
            &&& !b.on_stack@[x as int]
        } by {
        let x = a.components@[c]@[k];
        assert(a.visited(x as int));
    }
    assert forall|i: int|
        0 <= i < n && #[trigger] b.visited(i) implies b.on_stack@[i] || in_components(
            b.components@,
            i as usize,
        ) by {
        assert(a.visited(i));
    }
    assert forall|k: int| 0 <= k < b.stack@.len() implies b.index_of(#[trigger] b.stack@[k] as int) >= base by {
        assert(a.index_of(a.stack@[k] as int) >= base);
    }
    assert forall|i: int|
        0 <= i < n && #[trigger] b.visited(i) && b.index_of(i) >= base implies b.low_links@[i] >= base by {
        assert(a.visited(i));
    }
    assert(b.covered(n));
    assert(components_disjoint(b.components@));
    assert(b.stack@.no_duplicates());
    assert(count_unvisited(b.indices@) + b.next_index == n);
    assert forall|i: int| 0 <= i < n implies (#[trigger] b.on_stack@[i] <==> b.stack@.contains(i as usize)) by {
        assert(a.on_stack@[i] <==> a.stack@.contains(i as usize));
    }
    assert forall|c: int|
        0 <= c < b.components@.len() implies #[trigger] b.component_sizes@[c] == b.components@[c]@.len()
            && b.components@[c]@.len() > 0 by {
        assert(a.component_sizes@[c] == a.components@[c]@.len());
    }
    assert(b.wf_core(n));
}

/// A node that has been left stays left while its low link stays, the nodes
/// visited stay visited under the same index, and no node visited earlier is
/// put back on the stack.
proof fn lemma_done_frame(a: TarjanSccBuilder, b: TarjanSccBuilder, adj: Seq<Vec<usize>>, x: int)
    requires
        a.done(adj, x),
        b.low_links@[x] == a.low_links@[x],
        adjacency_ok(adj),
        0 <= x < adj.len(),
        forall|y: int| 0 <= y < adj.len() && #[trigger] a.visited(y) ==> b.visited(y) && b.index_of(y) == a.index_of(y),
        forall|y: int| 0 <= y < adj.len() && a.visited(y) && #[trigger] b.on_stack@[y] ==> a.on_stack@[y],
    ensures
        b.done(adj, x),
{
    assert forall|e: int| 0 <= e < adj[x]@.len() implies b.visited(#[trigger] adj[x]@[e] as int) && (b.on_stack@[(
        adj[x]@[e] as int)] ==> b.low_links@[x] <= b.index_of(adj[x]@[e] as int)) by {
        let y = adj[x]@[e] as int;
        assert(a.visited(y));
        if b.on_stack@[y] {
            assert(a.on_stack@[y]);
        }
    }
}

/// Popping the component of a root whose low link is its own index keeps every
/// edge from a component leading to the same or an earlier component.
#[verifier::spinoff_prover]
proof fn lemma_pop_closed(pre: TarjanSccBuilder, post: TarjanSccBuilder, adj: Seq<Vec<usize>>, p: int, v: usize)
    requires
        adjacency_ok(adj),
        pre.wf(adj.len() as nat),
        pre.order_ok(),
        closed_components(adj, pre.components@),
        0 <= p < pre.stack@.len(),
        pre.stack@[p] == v,
        pre.low_links@[v as int] == pre.index_of(v as int),
        forall|k: int| p <= k < pre.stack@.len() ==> pre.done(adj, #[trigger] pre.stack@[k] as int),
        forall|k: int| p <= k < pre.stack@.len() ==> pre.low_links@[v as int] <= pre.low_links@[#[trigger] pre.stack@[k] as int],
        post.components@.len() == pre.components@.len() + 1,
        forall|c: int| 0 <= c < pre.components@.len() ==> #[trigger] post.components@[c] == pre.components@[c],
        forall|x: usize| #[trigger] post.components@[pre.components@.len() as int]@.contains(x) <==> pre.stack@.subrange(
            p,
            pre.stack@.len() as int,
        ).contains(x),
    ensures
        closed_components(adj, post.components@),
{
    let comps = post.components@;
    let last = pre.components@.len() as int;
    let sub = pre.stack@.subrange(p, pre.stack@.len() as int);
    assert forall|c: int, k: int, e: int|
        0 <= c < comps.len() && 0 <= k < comps[c]@.len() && 0 <= e < adj[comps[c]@[k] as int]@.len() implies comp_at_most(
            comps,
            #[trigger] adj[#[trigger] comps[c]@[k] as int]@[e],
            c,
        ) by {
        let x = comps[c]@[k];
        let y = adj[x as int]@[e];
        if c < last {
            assert(comps[c] == pre.components@[c]);
            assert(comp_at_most(pre.components@, y, c));
            let c2 = choose|c2: int| 0 <= c2 <= c && #[trigger] pre.components@[c2]@.contains(y);
            assert(comps[c2] == pre.components@[c2]);
        } else {
            assert(comps[last]@.contains(x));
            assert(sub.contains(x));
            let q = choose|q: int| 0 <= q < sub.len() && sub[q] == x;
            assert(pre.stack@[p + q] == x);
            assert(pre.done(adj, x as int));
            assert(pre.visited(y as int));
            if pre.on_stack@[y as int] {
                assert(pre.low_links@[x as int] <= pre.index_of(y as int));
                assert(pre.stack@.contains(y));
                let r = choose|r: int| 0 <= r < pre.stack@.len() && pre.stack@[r] == y;
                if r < p {
                    assert(pre.index_of(pre.stack@[r] as int) < pre.index_of(pre.stack@[p] as int));
                    assert(pre.low_links@[v as int] <= pre.low_links@[pre.stack@[p + q] as int]);
                    assert(false);
                }
                assert(sub[r - p] == y);
                assert(comps[last]@.contains(y));
            } else {
                assert(in_components(pre.components@, y));
                let (c2, k2) = choose|c2: int, k2: int|
                    0 <= c2 < pre.components@.len() && 0 <= k2 < pre.components@[c2]@.len() && pre.components@[c2]@[k2] == y;
                assert(comps[c2] == pre.components@[c2]);
                assert(comps[c2]@[k2] == y);
                assert(comps[c2]@.contains(y));
            }
        }
    }
}

/// What a visit of `v`, which sits at position `p` of the stack, keeps between
/// the successors it looks at: every node on the stack has its low link
/// witnessed, every two nodes of a component reach each other, the nodes above
/// `v` have low links below their indices, and `v` reaches every node visited
/// since the visit began.
#[verifier::opaque]
pub open spec fn strong_inv(entry: TarjanSccBuilder, st: TarjanSccBuilder, adj: Seq<Vec<usize>>, v: usize, p: int) -> bool {
    &&& st.witnessed_ok(adj)
    &&& components_strong(adj, st.components@)
    &&& forall|k: int| p < k < st.stack@.len() ==> st.low_links@[#[trigger] st.stack@[k] as int] < st.index_of(
        st.stack@[k] as int,
    )
    &&& forall|i: int| 0 <= i < adj.len() && !entry.visited(i) && #[trigger] st.visited(i) ==> adj_reaches(adj, v as int, i)
}

proof fn lemma_strong_init(entry: TarjanSccBuilder, st: TarjanSccBuilder, adj: Seq<Vec<usize>>, v: usize, p: int)
    requires
        entry.wf(adj.len() as nat),
        entry.witnessed_ok(adj),
        components_strong(adj, entry.components@),
        0 <= v < adj.len(),
        !entry.visited(v as int),
        p == entry.stack@.len(),
        st.stack@ == entry.stack@.push(v),
        st.components@ == entry.components@,
        st.indices@ == entry.indices@.update(v as int, Some(entry.next_index)),
        st.low_links@ == entry.low_links@.update(v as int, entry.next_index),
    ensures
        strong_inv(entry, st, adj, v, p),
{
    reveal(strong_inv);
    assert forall|k: int| 0 <= k < st.stack@.len() implies st.low_witnessed(adj, #[trigger] st.stack@[k] as int) by {
        if k < p {
            let x = entry.stack@[k];
            assert(st.stack@[k] == x);
            assert(entry.low_witnessed(adj, x as int));
            let y = lemma_witness_elim(entry, adj, x as int);
            let r = choose|r: int| 0 <= r < entry.stack@.len() && entry.stack@[r] == y;
            assert(st.stack@[r] == y);
            assert(st.stack@.contains(y));
            assert(entry.visited(y as int));
            assert(entry.visited(x as int));
            assert(y != v);
            assert(x != v);
            lemma_witness_intro(st, adj, x as int, y);
        } else {
            assert(st.stack@[k] == v);
            lemma_reaches_refl(adj, v as int);
            assert(st.stack@[p] == v);
            assert(st.stack@.contains(v));
            lemma_witness_intro(st, adj, v as int, v);
        }
    }
    assert forall|i: int| 0 <= i < adj.len() && !entry.visited(i) && #[trigger] st.visited(i) implies adj_reaches(adj, v as int, i) by {
        assert(i == v as int);
        lemma_reaches_refl(adj, v as int);
    }
}

/// A successor `w` of `v` visited by a nested visit, after which the low link of
/// `v` is lowered to that of `w` where that is smaller.
#[verifier::spinoff_prover]
proof fn lemma_strong_child(
    entry: TarjanSccBuilder,
    before: TarjanSccBuilder,
    mid: TarjanSccBuilder,
    after: TarjanSccBuilder,
    adj: Seq<Vec<usize>>,
    v: usize,
    w: usize,
    p: int,
)
    requires
        adjacency_ok(adj),
        strong_inv(entry, before, adj, v, p),
        before.wf(adj.len() as nat),
        mid.wf(adj.len() as nat),
        0 <= p < before.stack@.len(),
        before.stack@[p] == v,
        before.visited(v as int),
        0 <= v < adj.len(),
        0 <= w < adj.len(),
        adj[v as int]@.contains(w),
        !before.visited(w as int),
        forall|i: int| 0 <= i < adj.len() && entry.visited(i) ==> before.visited(i),
        mid.witnessed_ok(adj),
        components_strong(adj, mid.components@),
        forall|k: int|
            before.stack@.len() <= k < mid.stack@.len() ==> mid.low_links@[#[trigger] mid.stack@[k] as int]
                < mid.index_of(mid.stack@[k] as int),
        forall|i: int| 0 <= i < adj.len() && !before.visited(i) && #[trigger] mid.visited(i) ==> adj_reaches(adj, w as int, i),
        mid.stack@.len() == before.stack@.len() ==> mid.low_links@[w as int] == before.next_index,
        mid.stack@.len() >= before.stack@.len(),
        mid.stack@.take(before.stack@.len() as int) == before.stack@,
        mid.stack@.len() == before.stack@.len() || mid.stack@[before.stack@.len() as int] == w,
        forall|i: int|
            0 <= i < adj.len() && before.visited(i) ==> mid.indices@[i] == before.indices@[i] && mid.low_links@[i]
                == before.low_links@[i],
        after.stack@ == mid.stack@,
        after.indices@ == mid.indices@,
        after.components@ == mid.components@,
        after.low_links@ == mid.low_links@ || (mid.low_links@[w as int] < mid.low_links@[v as int] && after.low_links@
            == mid.low_links@.update(v as int, mid.low_links@[w as int])),
    ensures
        strong_inv(entry, after, adj, v, p),
{
    reveal(strong_inv);
    let bl = before.stack@.len() as int;
    assert(before.index_of(v as int) < before.next_index);
    assert(mid.low_links@[v as int] == before.low_links@[v as int]);
    assert forall|k: int| 0 <= k < after.stack@.len() implies after.low_witnessed(adj, #[trigger] after.stack@[k] as int) by {
        let x = after.stack@[k];
        assert(mid.low_witnessed(adj, x as int));
        let y = lemma_witness_elim(mid, adj, x as int);
        assert(after.stack@.contains(y));
        if x != v || after.low_links@ == mid.low_links@ {
            assert(after.low_links@[x as int] == mid.low_links@[x as int]);
            lemma_witness_intro(after, adj, x as int, y);
        } else {
            assert(mid.stack@.len() > bl) by {
                if mid.stack@.len() == bl {
                    assert(mid.low_links@[w as int] == before.next_index);
                }
            }
            assert(mid.stack@[bl] == w);
            assert(mid.low_witnessed(adj, w as int));
            let z = lemma_witness_elim(mid, adj, w as int);
            assert(after.stack@.contains(z));
            lemma_reaches_edge(adj, v as int, w as int);
            lemma_reaches_trans(adj, v as int, w as int, z as int);
            lemma_witness_intro(after, adj, v as int, z);
        }
    }
    assert forall|k: int| p < k < after.stack@.len() implies after.low_links@[#[trigger] after.stack@[k] as int] < after.index_of(
        after.stack@[k] as int,
    ) by {
        let x = after.stack@[k];
        assert(x != v) by {
            assert(mid.stack@.take(bl)[p] == before.stack@[p]);
            assert(mid.stack@.no_duplicates());
        }
        if k < bl {
            assert(mid.stack@.take(bl)[k] == before.stack@[k]);
            assert(before.visited(x as int));
        }
    }
    assert forall|i: int| 0 <= i < adj.len() && !entry.visited(i) && #[trigger] after.visited(i) implies adj_reaches(adj, v as int, i) by {
        if before.visited(i) {
        } else {
            assert(mid.visited(i));
            lemma_reaches_edge(adj, v as int, w as int);
            lemma_reaches_trans(adj, v as int, w as int, i);
        }
    }
}

/// A successor `w` of `v` already on the stack, after which the low link of `v`
/// is lowered to the index of `w` where that is smaller.
#[verifier::spinoff_prover]
proof fn lemma_strong_on_stack(
    entry: TarjanSccBuilder,
    before: TarjanSccBuilder,
    after: TarjanSccBuilder,
    adj: Seq<Vec<usize>>,
    v: usize,
    w: usize,
    p: int,
)
    requires
        strong_inv(entry, before, adj, v, p),
        before.wf(adj.len() as nat),
        0 <= p < before.stack@.len(),
        before.stack@[p] == v,
        0 <= v < adj.len(),
        0 <= w < adj.len(),
        adj[v as int]@.contains(w),
        before.on_stack@[w as int],
        before.visited(w as int),
        after.stack@ == before.stack@,
        after.indices@ == before.indices@,
        after.components@ == before.components@,
        after.low_links@ == before.low_links@ || after.low_links@ == before.low_links@.update(
            v as int,
            before.index_of(w as int),
        ),
    ensures
        strong_inv(entry, after, adj, v, p),
{
    reveal(strong_inv);
    assert forall|k: int| 0 <= k < after.stack@.len() implies after.low_witnessed(adj, #[trigger] after.stack@[k] as int) by {
        let x = after.stack@[k];
        if x != v || after.low_links@ == before.low_links@ {
            assert(before.low_witnessed(adj, x as int));
            let y = lemma_witness_elim(before, adj, x as int);
            assert(after.stack@.contains(y));
            lemma_witness_intro(after, adj, x as int, y);
        } else {
            assert(before.stack@.contains(w));
            assert(after.stack@.contains(w));
            lemma_reaches_edge(adj, v as int, w as int);
            lemma_witness_intro(after, adj, v as int, w);
        }
    }
    assert forall|i: int| 0 <= i < adj.len() && !entry.visited(i) && #[trigger] after.visited(i) implies adj_reaches(adj, v as int, i) by {
        assert(before.visited(i));
    }
    assert(components_strong(adj, after.components@));
    assert forall|k: int| p < k < after.stack@.len() implies after.low_links@[#[trigger] after.stack@[k] as int] < after.index_of(
        after.stack@[k] as int,
    ) by {
        assert(before.low_links@[before.stack@[k] as int] < before.index_of(before.stack@[k] as int));
        assert(after.stack@[k] != v) by {
            assert(before.stack@.no_duplicates());
        }
    }
}

/// What the loop of a visit leaves for its end: the parts of `strong_inv`.
proof fn lemma_strong_unfold(entry: TarjanSccBuilder, st: TarjanSccBuilder, adj: Seq<Vec<usize>>, v: usize, p: int)
    requires
        strong_inv(entry, st, adj, v, p),
    ensures
        st.witnessed_ok(adj),
        components_strong(adj, st.components@),
        forall|k: int| p < k < st.stack@.len() ==> st.low_links@[#[trigger] st.stack@[k] as int] < st.index_of(
            st.stack@[k] as int,
        ),
        forall|i: int| 0 <= i < adj.len() && !entry.visited(i) && #[trigger] st.visited(i) ==> adj_reaches(adj, v as int, i),
{
    reveal(strong_inv);
}

/// After the stack is cut back to position `p`, every node left on it still has
/// its low link witnessed.
proof fn lemma_pop_witnessed(pre: TarjanSccBuilder, post: TarjanSccBuilder, adj: Seq<Vec<usize>>, p: int)
    requires
        pre.wf(adj.len() as nat),
        pre.order_ok(),
        pre.witnessed_ok(adj),
        0 <= p <= pre.stack@.len(),
        post.stack@ == pre.stack@.take(p),
        post.indices@ == pre.indices@,
        post.low_links@ == pre.low_links@,
    ensures
        post.witnessed_ok(adj),
{
    assert forall|k: int| 0 <= k < post.stack@.len() implies post.low_witnessed(adj, #[trigger] post.stack@[k] as int) by {
        let x = pre.stack@[k];
        assert(post.stack@[k] == x);
        assert(pre.low_witnessed(adj, x as int));
        let y = lemma_witness_elim(pre, adj, x as int);
        let r = choose|r: int| 0 <= r < pre.stack@.len() && pre.stack@[r] == y;
        assert(pre.visited(x as int));
        assert(pre.low_links@[x as int] <= pre.index_of(x as int));
        if r > k {
            assert(pre.index_of(pre.stack@[k] as int) < pre.index_of(pre.stack@[r] as int));
        }
        assert(post.stack@[r] == y);
        assert(post.stack@.contains(y));
        lemma_witness_intro(post, adj, x as int, y);
    }
}

/// Each node above a root on the stack reaches the root, where the low link of
/// each is the index of a node on the stack that it reaches, smaller than its own
/// and no smaller than the root's.
proof fn lemma_reaches_root(pre: TarjanSccBuilder, adj: Seq<Vec<usize>>, p: int, v: usize, k: int)
    requires
        pre.wf(adj.len() as nat),
        pre.order_ok(),
        0 <= p <= k < pre.stack@.len(),
        pre.stack@[p] == v,
        pre.low_links@[v as int] == pre.index_of(v as int),
        pre.witnessed_ok(adj),
        forall|q: int| p < q < pre.stack@.len() ==> pre.low_links@[#[trigger] pre.stack@[q] as int] < pre.index_of(
            pre.stack@[q] as int,
        ),
        forall|q: int| p <= q < pre.stack@.len() ==> pre.low_links@[v as int] <= pre.low_links@[#[trigger] pre.stack@[q] as int],
    ensures
        adj_reaches(adj, pre.stack@[k] as int, v as int),
    decreases k - p,
{
    let x = pre.stack@[k];
    if k == p {
        lemma_reaches_refl(adj, v as int);
    } else {
        assert(pre.low_witnessed(adj, x as int));
        let y = lemma_witness_elim(pre, adj, x as int);
        let r = choose|r: int| 0 <= r < pre.stack@.len() && pre.stack@[r] == y;
        assert(pre.low_links@[x as int] < pre.index_of(x as int));
        assert(pre.low_links@[v as int] <= pre.low_links@[x as int]);
        if r < p {
            assert(pre.index_of(pre.stack@[r] as int) < pre.index_of(pre.stack@[p] as int));
        }
        if r >= k {
            if r > k {
                assert(pre.index_of(pre.stack@[k] as int) < pre.index_of(pre.stack@[r] as int));
            }
        }
        lemma_reaches_root(pre, adj, p, v, r);
        lemma_reaches_trans(adj, x as int, y as int, v as int);
    }
}

/// Popping the component of a root keeps every two nodes of a component
/// reaching each other.
#[verifier::spinoff_prover]
proof fn lemma_pop_strong(pre: TarjanSccBuilder, post: TarjanSccBuilder, adj: Seq<Vec<usize>>, p: int, v: usize)
    requires
        pre.wf(adj.len() as nat),
        pre.order_ok(),
        0 <= p < pre.stack@.len(),
        pre.stack@[p] == v,
        pre.low_links@[v as int] == pre.index_of(v as int),
        pre.witnessed_ok(adj),
        forall|q: int| p < q < pre.stack@.len() ==> pre.low_links@[#[trigger] pre.stack@[q] as int] < pre.index_of(
            pre.stack@[q] as int,
        ),
        forall|q: int| p <= q < pre.stack@.len() ==> pre.low_links@[v as int] <= pre.low_links@[#[trigger] pre.stack@[q] as int],
        forall|q: int| p <= q < pre.stack@.len() ==> adj_reaches(adj, v as int, #[trigger] pre.stack@[q] as int),
        components_strong(adj, pre.components@),
        post.components@.len() == pre.components@.len() + 1,
        forall|c: int| 0 <= c < pre.components@.len() ==> #[trigger] post.components@[c] == pre.components@[c],
        forall|x: usize| #[trigger] post.components@[pre.components@.len() as int]@.contains(x) <==> pre.stack@.subrange(
            p,
            pre.stack@.len() as int,
        ).contains(x),
    ensures
        components_strong(adj, post.components@),
{
    let comps = post.components@;
    let last = pre.components@.len() as int;
    let sub = pre.stack@.subrange(p, pre.stack@.len() as int);
    assert forall|c: int, k1: int, k2: int|
        0 <= c < comps.len() && 0 <= k1 < comps[c]@.len() && 0 <= k2 < comps[c]@.len() implies adj_reaches(
            adj,
            #[trigger] comps[c]@[k1] as int,
            #[trigger] comps[c]@[k2] as int,
        ) by {
        if c < last {
            assert(comps[c] == pre.components@[c]);
            assert(adj_reaches(adj, pre.components@[c]@[k1] as int, pre.components@[c]@[k2] as int));
        } else {
            let a = comps[c]@[k1];
            let b = comps[c]@[k2];
            assert(comps[last]@.contains(a));
            assert(comps[last]@.contains(b));
            let qa = choose|q: int| 0 <= q < sub.len() && sub[q] == a;
            let qb = choose|q: int| 0 <= q < sub.len() && sub[q] == b;
            assert(pre.stack@[p + qa] == a);
            assert(pre.stack@[p + qb] == b);
            lemma_reaches_root(pre, adj, p, v, p + qa);
            assert(adj_reaches(adj, v as int, pre.stack@[p + qb] as int));
            lemma_reaches_trans(adj, a as int, v as int, b as int);
        }
    }
}

/// Visits `v` and, depth first, every node it reaches that has not been visited,
/// recording each component whose root finishes.
#[verifier::rlimit(100)]
#[verifier::spinoff_prover]
fn visit(adj: &Vec<Vec<usize>>, st: &mut TarjanSccBuilder, v: usize, Ghost(base): Ghost<usize>)
    requires
        adjacency_ok(adj@),
        old(st).wf(adj@.len() as nat),
        v < adj@.len(),
        !old(st).visited(v as int),
        old(st).round_ok(adj@.len() as nat, base),
        old(st).order_ok(),
        closed_components(adj@, old(st).components@),
        old(st).witnessed_ok(adj@),
        components_strong(adj@, old(st).components@),
    ensures
        final(st).order_ok(),
        closed_components(adj@, final(st).components@),
        final(st).witnessed_ok(adj@),
        components_strong(adj@, final(st).components@),
        forall|k: int|
            old(st).stack@.len() <= k < final(st).stack@.len() ==> final(st).low_links@[#[trigger] final(st).stack@[k] as int]
                < final(st).index_of(final(st).stack@[k] as int),
        forall|i: int| 0 <= i < adj@.len() && !old(st).visited(i) && #[trigger] final(st).visited(i) ==> adj_reaches(adj@, v as int, i),
        final(st).stack@.len() == old(st).stack@.len() ==> final(st).low_links@[v as int] == old(st).next_index,
        forall|k: int|
            old(st).stack@.len() <= k < final(st).stack@.len() ==> !old(st).visited(#[trigger] final(st).stack@[k] as int),
        forall|y: int| 0 <= y < adj@.len() && old(st).visited(y) && #[trigger] final(st).on_stack@[y] ==> old(st).on_stack@[y],
        forall|i: int| 0 <= i < adj@.len() && old(st).visited(i) && old(st).done(adj@, i) ==> #[trigger] final(st).done(adj@, i),
        forall|i: int| 0 <= i < adj@.len() && !old(st).visited(i) && final(st).visited(i) ==> #[trigger] final(st).done(adj@, i),
        forall|k: int|
            old(st).stack@.len() <= k < final(st).stack@.len() ==> final(st).low_links@[v as int] <= final(st).low_links@[
                #[trigger] final(st).stack@[k] as int],
        final(st).wf(adj@.len() as nat),
        final(st).round_ok(adj@.len() as nat, base),
        final(st).next_index > old(st).next_index,
        final(st).stack@.len() >= old(st).stack@.len(),
        final(st).stack@.take(old(st).stack@.len() as int) == old(st).stack@,
        forall|i: int|
            0 <= i < adj@.len() && old(st).visited(i) ==> final(st).indices@[i] == old(st).indices@[i]
                && final(st).low_links@[i] == old(st).low_links@[i],
        forall|i: int|
            0 <= i < adj@.len() && !old(st).visited(i) && #[trigger] final(st).visited(i) ==> final(st).index_of(i)
                >= old(st).next_index,
        final(st).indices@[v as int] == Some(old(st).next_index),
        final(st).stack@.len() == old(st).stack@.len() || final(st).stack@[old(st).stack@.len() as int] == v,
        final(st).low_links@[v as int] >= old(st).next_index ==> final(st).stack@.len() == old(st).stack@.len(),
    decreases count_unvisited(st.indices@),
{
    let n_nodes = adj.len();
    let ghost n = adj@.len() as nat;
    let ghost entry = *st;
    assert(n == n_nodes);
    let idx = st.next_index;
    proof { lemma_count_unvisited_update(st.indices@, v as int, idx); }
    st.indices.set(v, Some(idx));
    st.low_links.set(v, idx);
    st.next_index = idx + 1;
    st.stack.push(v);
    st.on_stack.set(v, true);
    let ghost p = entry.stack@.len() as int;
    proof {
        assert(st.stack@.take(p) =~= entry.stack@);
        assert(st.stack@[p] == v);
        assert(!entry.stack@.contains(v)) by {
            if entry.stack@.contains(v) {
                let k = choose|k: int| 0 <= k < entry.stack@.len() && entry.stack@[k] == v;
                assert(entry.visited(entry.stack@[k] as int));
            }
        }
        assert forall|i: int| 0 <= i < n implies (#[trigger] st.on_stack@[i] <==> st.stack@.contains(i as usize)) by {
            if i != v as int {
                assert(entry.on_stack@[i] <==> entry.stack@.contains(i as usize));
                if entry.stack@.contains(i as usize) {
                    let k = choose|k: int| 0 <= k < entry.stack@.len() && entry.stack@[k] == i as usize;
                    assert(st.stack@[k] == i as usize);
                }
                if st.stack@.contains(i as usize) {
                    let k = choose|k: int| 0 <= k < st.stack@.len() && st.stack@[k] == i as usize;
                    assert(k != p);
                    assert(entry.stack@[k] == i as usize);
                }
            } else {
                assert(st.stack@[p] == v);
            }
        }
        assert(st.stack@.no_duplicates()) by {
            assert forall|a: int, b: int| 0 <= a < b < st.stack@.len() implies st.stack@[a] != st.stack@[b] by {
                if b == p {
                    assert(entry.stack@[a] == st.stack@[a]);
                }
            }
        }
        assert forall|k: int| 0 <= k < st.stack@.len() implies st.visited(#[trigger] st.stack@[k] as int) by {
            if k < p {
                assert(st.stack@[k] == entry.stack@[k]);
            }
        }
        assert forall|k: int| 0 <= k < st.stack@.len() implies #[trigger] st.stack@[k] < n by {
            if k < p {
                assert(st.stack@[k] == entry.stack@[k]);
            }
        }
        assert forall|i: int|
            0 <= i < n && #[trigger] st.visited(i) implies st.index_of(i) < st.next_index && st.low_links@[i]
                <= st.index_of(i) by {
            if i != v as int {
                assert(entry.visited(i));
            }
        }
        assert forall|c: int, k: int|
            0 <= c < st.components@.len() && 0 <= k < st.components@[c]@.len() implies {
                let x = #[trigger] st.components@[c]@[k];
                &&& x < n
                &&& st.visited(x as int)
                &&& !st.on_stack@[x as int]
            } by {
            let x = st.components@[c]@[k];
            assert(entry.visited(x as int));
            assert(x != v);
        }
        assert forall|i: int|
            0 <= i < n && #[trigger] st.visited(i) implies st.on_stack@[i] || in_components(
                st.components@,
                i as usize,
            ) by {
            if i != v as int {
                assert(entry.visited(i));
            }
        }
        assert forall|k: int| 0 <= k < st.stack@.len() implies st.index_of(#[trigger] st.stack@[k] as int) >= base by {
            if k < p {
                assert(st.stack@[k] == entry.stack@[k]);
                assert(entry.index_of(entry.stack@[k] as int) >= base);
            }
        }
        assert forall|i: int|
            0 <= i < n && #[trigger] st.visited(i) && st.index_of(i) >= base implies st.low_links@[i] >= base by {
            if i != v as int {
                assert(entry.visited(i));
            }
        }
        assert forall|a: int, b: int| 0 <= a < b < st.stack@.len() implies st.index_of(#[trigger] st.stack@[a] as int)
            < st.index_of(#[trigger] st.stack@[b] as int) by {
            assert(st.stack@[a] == entry.stack@[a]);
            assert(entry.visited(entry.stack@[a] as int));
            if b < p {
                assert(st.stack@[b] == entry.stack@[b]);
                assert(entry.visited(entry.stack@[b] as int));
            } else {
                assert(st.stack@[b] == v);
            }
        }
        assert forall|i: int| 0 <= i < n && entry.visited(i) && entry.done(adj@, i) implies #[trigger] st.done(adj@, i) by {
            assert forall|y: int| 0 <= y < n && #[trigger] entry.visited(y) implies st.visited(y) && st.index_of(y) == entry.index_of(y) by {
                assert(y != v as int);
            }
            assert forall|y: int| 0 <= y < n && entry.visited(y) && #[trigger] st.on_stack@[y] implies entry.on_stack@[y] by {
                assert(y != v as int);
            }
            assert(i != v as int);
            lemma_done_frame(entry, *st, adj@, i);
        }
        assert forall|y: int| 0 <= y < n && entry.visited(y) && #[trigger] st.on_stack@[y] implies entry.on_stack@[y] by {
            assert(y != v as int);
        }
        lemma_strong_init(entry, *st, adj@, v, p);
    }
    let mut j: usize = 0;
    while j < adj[v].len()
        invariant
            adjacency_ok(adj@),
            n == adj@.len(),
            v < n,
            st.wf(n),
            st.round_ok(n, base),
            idx == entry.next_index,
            st.next_index > idx,
            0 <= p == entry.stack@.len(),
            st.stack@.len() > p,
            st.stack@[p] == v,
            st.stack@.take(p) == entry.stack@,
            st.indices@[v as int] == Some(idx),
            forall|i: int|
                0 <= i < n && entry.visited(i) ==> st.indices@[i] == entry.indices@[i] && st.low_links@[i]
                    == entry.low_links@[i],
            forall|i: int|
                0 <= i < n && !entry.visited(i) && #[trigger] st.visited(i) ==> st.index_of(i) >= idx,
            count_unvisited(st.indices@) < count_unvisited(entry.indices@),
            count_unvisited(st.indices@) < count_unvisited(old(st).indices@),
            !entry.visited(v as int),
            j <= adj@[v as int]@.len(),
            st.order_ok(),
            closed_components(adj@, st.components@),
            forall|k: int| p < k < st.stack@.len() ==> !entry.visited(#[trigger] st.stack@[k] as int),
            forall|k: int| p < k < st.stack@.len() ==> st.low_links@[v as int] <= st.low_links@[#[trigger] st.stack@[k] as int],
            forall|y: int| 0 <= y < n && entry.visited(y) && #[trigger] st.on_stack@[y] ==> entry.on_stack@[y],
            forall|i: int| 0 <= i < n && entry.visited(i) && entry.done(adj@, i) ==> #[trigger] st.done(adj@, i),
            forall|i: int| 0 <= i < n && !entry.visited(i) && st.visited(i) && i != v as int ==> #[trigger] st.done(adj@, i),
            forall|e: int| 0 <= e < j ==> st.visited(#[trigger] adj@[v as int]@[e] as int) && (st.on_stack@[(
                adj@[v as int]@[e] as int)] ==> st.low_links@[v as int] <= st.index_of(adj@[v as int]@[e] as int)),
            strong_inv(entry, *st, adj@, v, p),
        decreases adj@[v as int]@.len() - j,
    {
        let w = adj[v][j];
        assert(w < n);
        let ghost before = *st;
        if st.indices[w].is_none() {
            proof { lemma_strong_unfold(entry, *st, adj@, v, p); }
            visit(adj, st, w, Ghost(base));
            let ghost mid = *st;
            let lw = st.low_links[w];
            proof {
                assert(mid.visited(w as int));
                assert(mid.index_of(w as int) >= base);
                assert(before.visited(v as int));
            }
            if lw < st.low_links[v] {
                st.low_links.set(v, lw);
                proof { lemma_lower_low_link(mid, *st, n, base, v as int, lw); }
            }
            proof {
                assert forall|i: int|
                    0 <= i < n && entry.visited(i) implies st.indices@[i] == entry.indices@[i] && st.low_links@[i]
                        == entry.low_links@[i] by {
                    assert(before.visited(i));
                    assert(mid.low_links@[i] == before.low_links@[i]);
                    assert(i != v as int);
                }
                assert forall|i: int|
                    0 <= i < n && !entry.visited(i) && #[trigger] st.visited(i) implies st.index_of(i) >= idx by {
                    if before.visited(i) {
                        assert(st.indices@[i] == before.indices@[i]) by {
                            if i != v as int {
                                assert(mid.indices@[i] == before.indices@[i]);
                            }
                        }
                    } else {
                        assert(mid.visited(i));
                    }
                }
                assert(st.stack@[p] == v) by {
                    assert(st.stack@.take(before.stack@.len() as int)[p] == before.stack@[p]);
                }
                assert(st.stack@.take(p) =~= entry.stack@) by {
                    assert(st.stack@.take(before.stack@.len() as int) == before.stack@);
                    assert(st.stack@.take(p) =~= before.stack@.take(p));
                }
                assert(before.visited(v as int));
                let bl = before.stack@.len() as int;
                assert(st.low_links@[v as int] <= before.low_links@[v as int]);
                assert(st.low_links@[v as int] <= mid.low_links@[w as int]);
                assert forall|y: int| 0 <= y < n && entry.visited(y) implies #[trigger] before.visited(y) by {}
                assert forall|k: int| p < k < st.stack@.len() implies !entry.visited(#[trigger] st.stack@[k] as int) by {
                    if k < bl {
                        assert(st.stack@.take(bl)[k] == before.stack@[k]);
                    } else {
                        assert(!before.visited(mid.stack@[k] as int));
                    }
                }
                assert forall|k: int| p < k < st.stack@.len() implies st.low_links@[v as int] <= st.low_links@[
                    #[trigger] st.stack@[k] as int] by {
                    let x = st.stack@[k];
                    assert(x != v) by {
                        assert(st.stack@[p] == v);
                    }
                    if k < bl {
                        assert(st.stack@.take(bl)[k] == before.stack@[k]);
                        assert(before.visited(x as int));
                        assert(before.low_links@[v as int] <= before.low_links@[before.stack@[k] as int]);
                    } else {
                        assert(mid.stack@[bl] == w);
                        assert(mid.low_links@[w as int] <= mid.low_links@[mid.stack@[k] as int]);
                    }
                }
                assert forall|y: int| 0 <= y < n && entry.visited(y) && #[trigger] st.on_stack@[y] implies entry.on_stack@[y] by {
                    assert(before.visited(y));
                    assert(mid.on_stack@[y]);
                    assert(before.on_stack@[y]);
                }
                assert forall|y: int| 0 <= y < n && #[trigger] mid.visited(y) implies st.visited(y) && st.index_of(y) == mid.index_of(y) by {}
                assert forall|y: int| 0 <= y < n && mid.visited(y) && #[trigger] st.on_stack@[y] implies mid.on_stack@[y] by {}
                assert forall|i: int| 0 <= i < n && entry.visited(i) && entry.done(adj@, i) implies #[trigger] st.done(adj@, i) by {
                    assert(before.done(adj@, i));
                    assert(before.visited(i));
                    assert(mid.done(adj@, i));
                    assert(i != v as int);
                    lemma_done_frame(mid, *st, adj@, i);
                }
                assert forall|i: int| 0 <= i < n && !entry.visited(i) && st.visited(i) && i != v as int implies #[trigger] st.done(adj@, i) by {
                    if before.visited(i) {
                        assert(before.done(adj@, i));
                        assert(mid.done(adj@, i));
                    } else {
                        assert(mid.visited(i));
                        assert(mid.done(adj@, i));
                    }
                    lemma_done_frame(mid, *st, adj@, i);
                }
                assert forall|e: int| 0 <= e < j + 1 implies st.visited(#[trigger] adj@[v as int]@[e] as int) && (st.on_stack@[(
                    adj@[v as int]@[e] as int)] ==> st.low_links@[v as int] <= st.index_of(adj@[v as int]@[e] as int)) by {
                    let y = adj@[v as int]@[e] as int;
                    if e < j {
                        assert(before.visited(y));
                        if st.on_stack@[y] {
                            assert(before.on_stack@[y]);
                        }
                    } else {
                        assert(y == w as int);
                        assert(mid.visited(w as int));
                        assert(mid.low_links@[w as int] <= mid.index_of(w as int));
                    }
                }
                assert forall|a: int, b: int| 0 <= a < b < st.stack@.len() implies st.index_of(#[trigger] st.stack@[a] as int)
                    < st.index_of(#[trigger] st.stack@[b] as int) by {
                    assert(mid.index_of(mid.stack@[a] as int) < mid.index_of(mid.stack@[b] as int));
                }
                assert(adj@[v as int]@.contains(w)) by { assert(adj@[v as int]@[j as int] == w); }
                lemma_strong_child(entry, before, mid, *st, adj@, v, w, p);
            }
        } else if st.on_stack[w] {
            let iw = match st.indices[w] {
                Some(k) => k,
                None => 0,
            };
            proof {
                assert(st.stack@.contains(w));
                let k = choose|k: int| 0 <= k < st.stack@.len() && st.stack@[k] == w;
                assert(st.index_of(st.stack@[k] as int) >= base);
                assert(iw >= base);
            }
            if iw < st.low_links[v] {
                proof { assert(before.visited(v as int)); }
                st.low_links.set(v, iw);
                proof { lemma_lower_low_link(before, *st, n, base, v as int, iw); }
            }
            proof {
                assert forall|i: int|
                    0 <= i < n && entry.visited(i) implies st.indices@[i] == entry.indices@[i] && st.low_links@[i]
                        == entry.low_links@[i] by {
                    assert(i != v as int);
                }
                assert forall|i: int|
                    0 <= i < n && !entry.visited(i) && #[trigger] st.visited(i) implies st.index_of(i) >= idx by {
                    assert(before.visited(i));
                }
                assert(st.low_links@[v as int] <= before.low_links@[v as int]);
                assert(st.low_links@[v as int] <= before.index_of(w as int));
                assert forall|k: int| p < k < st.stack@.len() implies st.low_links@[v as int] <= st.low_links@[
                    #[trigger] st.stack@[k] as int] by {
                    assert(st.stack@[k] != v) by {
                        assert(st.stack@[p] == v);
                    }
                    assert(before.low_links@[v as int] <= before.low_links@[before.stack@[k] as int]);
                }
                assert forall|y: int| 0 <= y < n && #[trigger] before.visited(y) implies st.visited(y) && st.index_of(y) == before.index_of(y) by {}
                assert forall|y: int| 0 <= y < n && before.visited(y) && #[trigger] st.on_stack@[y] implies before.on_stack@[y] by {}
                assert forall|i: int| 0 <= i < n && entry.visited(i) && entry.done(adj@, i) implies #[trigger] st.done(adj@, i) by {
                    assert(before.done(adj@, i));
                    assert(i != v as int);
                    lemma_done_frame(before, *st, adj@, i);
                }
                assert forall|i: int| 0 <= i < n && !entry.visited(i) && st.visited(i) && i != v as int implies #[trigger] st.done(adj@, i) by {
                    assert(before.visited(i));
                    assert(before.done(adj@, i));
                    lemma_done_frame(before, *st, adj@, i);
                }
                assert forall|e: int| 0 <= e < j + 1 implies st.visited(#[trigger] adj@[v as int]@[e] as int) && (st.on_stack@[(
                    adj@[v as int]@[e] as int)] ==> st.low_links@[v as int] <= st.index_of(adj@[v as int]@[e] as int)) by {
                    let y = adj@[v as int]@[e] as int;
                    if e < j {
                        assert(before.visited(y));
                    } else {
                        assert(y == w as int);
                    }
                }
                assert(adj@[v as int]@.contains(w)) by { assert(adj@[v as int]@[j as int] == w); }
                lemma_strong_on_stack(entry, before, *st, adj@, v, w, p);
            }
        } else {
            proof {
                assert(st.visited(w as int));
                assert forall|e: int| 0 <= e < j + 1 implies st.visited(#[trigger] adj@[v as int]@[e] as int) && (st.on_stack@[(
                    adj@[v as int]@[e] as int)] ==> st.low_links@[v as int] <= st.index_of(adj@[v as int]@[e] as int)) by {
                    let y = adj@[v as int]@[e] as int;
                    if e == j {
                        assert(y == w as int);
                    }
                }
            }
        }
        j = j + 1;
    }
    proof { lemma_strong_unfold(entry, *st, adj@, v, p); }
    if st.low_links[v] != idx {
        return;
    }
    let ghost pre = *st;
    proof {
        assert(pre.done(adj@, v as int));
        assert forall|k: int| p <= k < pre.stack@.len() implies pre.done(adj@, #[trigger] pre.stack@[k] as int) by {
            if k > p {
                let x = pre.stack@[k] as int;
                assert(pre.visited(x));
                assert(!entry.visited(x));
                assert(x != v as int) by {
                    assert(pre.stack@[p] == v);
                }
            }
        }
        assert forall|k: int| p <= k < pre.stack@.len() implies pre.low_links@[v as int] <= pre.low_links@[
            #[trigger] pre.stack@[k] as int] by {}
    }
    proof {
        assert forall|q: int| p <= q < pre.stack@.len() implies adj_reaches(adj@, v as int, #[trigger] pre.stack@[q] as int) by {
            if q == p {
                lemma_reaches_refl(adj@, v as int);
            } else {
                assert(!entry.visited(pre.stack@[q] as int));
                assert(pre.visited(pre.stack@[q] as int));
            }
        }
    }
    pop_component(st, v, Ghost(n), Ghost(p));
    proof {
        lemma_pop_closed(pre, *st, adj@, p, v);
        lemma_pop_strong(pre, *st, adj@, p, v);
        lemma_pop_witnessed(pre, *st, adj@, p);
        assert forall|y: int| 0 <= y < n && #[trigger] pre.visited(y) implies st.visited(y) && st.index_of(y) == pre.index_of(y) by {}
        assert forall|y: int| 0 <= y < n && pre.visited(y) && #[trigger] st.on_stack@[y] implies pre.on_stack@[y] by {
            assert(st.stack@.contains(y as usize));
            let k = choose|k: int| 0 <= k < st.stack@.len() && st.stack@[k] == y as usize;
            assert(st.stack@ == pre.stack@.take(p));
            assert(pre.stack@[k] == y as usize);
        }
        assert forall|i: int| 0 <= i < n && !entry.visited(i) && st.visited(i) implies #[trigger] st.done(adj@, i) by {
            assert(pre.visited(i));
            assert(pre.done(adj@, i));
            lemma_done_frame(pre, *st, adj@, i);
        }
        assert forall|i: int| 0 <= i < n && entry.visited(i) && entry.done(adj@, i) implies #[trigger] st.done(adj@, i) by {
            assert(pre.done(adj@, i));
            lemma_done_frame(pre, *st, adj@, i);
        }
        assert forall|y: int| 0 <= y < n && entry.visited(y) && #[trigger] st.on_stack@[y] implies entry.on_stack@[y] by {
            assert(pre.on_stack@[y]);
        }
        assert forall|a: int, b: int| 0 <= a < b < st.stack@.len() implies st.index_of(#[trigger] st.stack@[a] as int)
            < st.index_of(#[trigger] st.stack@[b] as int) by {
            assert(st.stack@[a] == pre.stack@[a] && st.stack@[b] == pre.stack@[b]);
            assert(pre.index_of(pre.stack@[a] as int) < pre.index_of(pre.stack@[b] as int));
        }
    }
    assert forall|i: int|
        0 <= i < n && #[trigger] st.visited(i) && st.index_of(i) >= base implies st.low_links@[i] >= base by {
        assert(pre.visited(i));
    }
    assert forall|i: int|
        0 <= i < n && !entry.visited(i) && #[trigger] st.visited(i) implies st.index_of(i) >= entry.next_index by {
        assert(pre.visited(i));
    }
    assert(st.stack@ =~= entry.stack@) by {
        assert(st.stack@.take(p) == entry.stack@);
    }
}

} // verus!

verus! {

/// Runs Tarjan's algorithm from every node in turn.
pub fn run_tarjan(adj: &Vec<Vec<usize>>) -> (st: TarjanSccBuilder)
    requires
        adjacency_ok(adj@),
    ensures
        st.wf(adj@.len() as nat),
        st.stack@.len() == 0,
        forall|i: int| 0 <= i < adj@.len() ==> #[trigger] st.visited(i),
        closed_components(adj@, st.components@),
        components_strong(adj@, st.components@),
{
    let n_nodes = adj.len();
    let ghost n = adj@.len() as nat;
    let mut st = new_builder(n_nodes);
    let mut node: usize = 0;
    while node < n_nodes
        invariant
            adjacency_ok(adj@),
            n == adj@.len(),
            n_nodes == n,
            node <= n,
            st.wf(n),
            st.stack@.len() == 0,
            forall|i: int| 0 <= i < node ==> #[trigger] st.visited(i),
            st.order_ok(),
            closed_components(adj@, st.components@),
            st.witnessed_ok(adj@),
            components_strong(adj@, st.components@),
        decreases n - node,
    {
        if st.indices[node].is_none() {
            let ghost before = st;
            let base = st.next_index;
            proof {
                assert forall|i: int|
                    0 <= i < n && #[trigger] st.visited(i) && st.index_of(i) >= base implies st.low_links@[i]
                        >= base by {
                    assert(st.index_of(i) < st.next_index);
                }
            }
            visit(adj, &mut st, node, Ghost(base));
            proof {
                assert(st.visited(node as int));
                assert(st.low_links@[node as int] >= base);
                assert forall|i: int| 0 <= i < node + 1 implies #[trigger] st.visited(i) by {
                    if i < node {
                        assert(before.visited(i));
                    }
                }
            }
        }
        node = node + 1;
    }
    st
}

/// The component that holds each node, by position in `comps`.
pub open spec fn component_of(comps: Seq<Vec<usize>>, i: usize, c: int) -> bool {
    0 <= c < comps.len() && comps[c]@.contains(i)
}

/// Numbers each node by the component that holds it.
pub fn number_components(st: &TarjanSccBuilder, n: usize) -> (ids: Vec<usize>)
    requires
        st.wf(n as nat),
        st.stack@.len() == 0,
        forall|i: int| 0 <= i < n ==> #[trigger] st.visited(i),
    ensures
        ids@.len() == n,
        forall|i: int| 0 <= i < n ==> component_of(st.components@, i as usize, #[trigger] ids@[i] as int),
{
    let mut ids: Vec<usize> = Vec::new();
    let mut i: usize = 0;
    while i < n
        invariant
            i <= n,
            ids@.len() == i,
            forall|j: int| 0 <= j < i ==> #[trigger] ids@[j] == 0,
        decreases n - i,
    {
        ids.push(0);
        i = i + 1;
    }
    let mut c: usize = 0;
    while c < st.components.len()
        invariant
            st.wf(n as nat),
            ids@.len() == n,
            c <= st.components@.len(),
            forall|i: int|
                0 <= i < n && (exists|d: int| 0 <= d < c && #[trigger] st.components@[d]@.contains(i as usize))
                    ==> component_of(st.components@, i as usize, #[trigger] ids@[i] as int),
        decreases st.components@.len() - c,
    {
        let comp = &st.components[c];
        let mut k: usize = 0;
        while k < comp.len()
            invariant
                st.wf(n as nat),
                ids@.len() == n,
                c < st.components@.len(),
                *comp == st.components@[c as int],
                k <= comp@.len(),
                forall|i: int|
                    0 <= i < n && ((exists|d: int| 0 <= d < c && #[trigger] st.components@[d]@.contains(i as usize))
                        || comp@.take(k as int).contains(i as usize)) ==> component_of(
                        st.components@,
                        i as usize,
                        #[trigger] ids@[i] as int,
                    ),
            decreases comp@.len() - k,
        {
            let x = comp[k];
            let ghost before = ids@;
            assert(x < n) by {
                assert(st.components@[c as int]@[k as int] == x);
            }
            ids.set(x, c);
            assert forall|i: int|
                0 <= i < n && ((exists|d: int| 0 <= d < c && #[trigger] st.components@[d]@.contains(i as usize))
                    || comp@.take(k + 1).contains(i as usize)) implies component_of(
                    st.components@,
                    i as usize,
                    #[trigger] ids@[i] as int,
                ) by {
                if i == x as int {
                    assert(comp@.contains(x)) by { assert(comp@[k as int] == x); }
                } else {
                    assert(ids@[i] == before[i]);
                    if comp@.take(k + 1).contains(i as usize) {
                        let tk = comp@.take(k + 1);
                        let t = choose|t: int| 0 <= t < tk.len() && #[trigger] tk[t] == i as usize;
                        assert(t != k);
                        assert(comp@.take(k as int)[t] == i as usize);
                    }
                }
            }
            k = k + 1;
        }
        assert(comp@.take(k as int) =~= comp@);
        assert forall|i: int|
            0 <= i < n && (exists|d: int| 0 <= d < c + 1 && #[trigger] st.components@[d]@.contains(i as usize))
                implies component_of(st.components@, i as usize, #[trigger] ids@[i] as int) by {
            let d = choose|d: int| 0 <= d < c + 1 && #[trigger] st.components@[d]@.contains(i as usize);
            if d == c {
                assert(comp@.take(k as int).contains(i as usize));
            }
        }
        c = c + 1;
    }
    assert forall|i: int| 0 <= i < n implies component_of(st.components@, i as usize, #[trigger] ids@[i] as int) by {
        assert(st.visited(i));
        assert(!st.on_stack@[i]) by {
            assert(!st.stack@.contains(i as usize));
        }
        assert(in_components(st.components@, i as usize));
        let (d, t) = choose|d: int, t: int|
            #![trigger st.components@[d]@[t]]
            0 <= d < st.components@.len() && 0 <= t < st.components@[d]@.len() && st.components@[d]@[t] == i as usize;
        assert(st.components@[d]@.contains(i as usize));
    }
    ids
}

} // verus!
