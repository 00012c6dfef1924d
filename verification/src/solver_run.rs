//! Runs of the solver from its first execution: each step completes the ready
//! component with the least id, whose predecessors are then all completed; no
//! component is completed twice, and once every component is, nothing is ready.
use vstd::prelude::*;

use crate::semantic_graph::{SalsaSemanticGraphSccComponentSummary, SalsaSemanticGraphSccIndex, SalsaSemanticGraphSummary};
use crate::semantic_scc::{component_edge, lemma_last_node_index, spec_component_successor, spec_edge_ends, spec_scc_index};
use crate::solver_execution::{
    ExecTaskView, Ids, SalsaSemanticSolverExecutionSummary, SalsaSemanticSolverTaskStateSummary,
    SalsaSemanticSolverWorklistSummary, exec_task_views, first_exec_task_index, is_min_id, lemma_first_exec_task_index,
    remove_id, spec_complete, spec_initial_execution, spec_ready_accum, spec_ready_ids, spec_release_task, spec_worklist,
    task_views,
};

verus! {

/// The predecessors of each component are later components.
pub open spec fn preds_point_forward(preds: Seq<Ids>) -> bool {
    forall|c: int, j: int| 0 <= c < preds.len() && 0 <= j < preds[c].len() ==> c < #[trigger] preds[c][j] < preds.len()
}

/// The ids of `p` that `done` does not hold, in order.
pub open spec fn not_done(p: Ids, done: Ids) -> Ids
    decreases p.len(),
{
    if p.len() == 0 {
        seq![]
    } else {
        let r = not_done(p.drop_last(), done);
        if done.contains(p.last()) { r } else { r.push(p.last()) }
    }
}

/// How many of the tasks are not completed.
pub open spec fn open_count(tv: Seq<ExecTaskView>) -> nat
    decreases tv.len(),
{
    if tv.len() == 0 {
        0
    } else {
        open_count(tv.drop_last()) + if tv.last().1 == SalsaSemanticSolverTaskStateSummary::Completed { 0nat } else { 1nat }
    }
}

/// The bookkeeping of an execution for components with predecessors `preds`:
/// task `k` is that of component `k`; it is completed when `k` is among the
/// completed ids, and then so are its predecessors; it waits for the
/// predecessors not completed, and is ready when it waits for none; the ready
/// ids are those of the ready tasks.
pub open spec fn run_inv(preds: Seq<Ids>, e: SalsaSemanticSolverExecutionSummary) -> bool {
    let tv = exec_task_views(e.tasks@);
    let done = e.completed_component_ids@;
    &&& tv.len() == preds.len()
    &&& forall|k: int|
        #![trigger tv[k]]
        0 <= k < tv.len() ==> {
            &&& tv[k].0 == k
            &&& (tv[k].1 == SalsaSemanticSolverTaskStateSummary::Completed <==> done.contains(k as usize))
            &&& tv[k].2 == not_done(preds[k], done)
            &&& (tv[k].1 == SalsaSemanticSolverTaskStateSummary::Ready <==> (tv[k].1
                != SalsaSemanticSolverTaskStateSummary::Completed && tv[k].2.len() == 0))
            &&& (tv[k].1 == SalsaSemanticSolverTaskStateSummary::Completed ==> forall|j: int|
                0 <= j < preds[k].len() ==> done.contains(#[trigger] preds[k][j]))
        }
    &&& forall|x: usize|
        #![trigger e.ready_component_ids@.contains(x)]
        e.ready_component_ids@.contains(x) <==> (x < tv.len() && tv[x as int].1
            == SalsaSemanticSolverTaskStateSummary::Ready)
}

proof fn lemma_push_contains(s: Ids, a: usize, x: usize)
    ensures
        s.push(a).contains(x) <==> (s.contains(x) || a == x),
{
    if s.contains(x) {
        let i = choose|i: int| 0 <= i < s.len() && s[i] == x;
        assert(s.push(a)[i] == x);
    }
    if a == x {
        assert(s.push(a)[s.len() as int] == x);
    }
    if s.push(a).contains(x) {
        let i = choose|i: int| 0 <= i < s.push(a).len() && s.push(a)[i] == x;
        if i < s.len() {
            assert(s[i] == x);
        }
    }
}

proof fn lemma_not_done_empty(p: Ids, done: Ids)
    ensures
        not_done(p, done).len() == 0 <==> forall|j: int| 0 <= j < p.len() ==> done.contains(#[trigger] p[j]),
    decreases p.len(),
{
    if p.len() > 0 {
        lemma_not_done_empty(p.drop_last(), done);
        if not_done(p, done).len() == 0 {
            assert forall|j: int| 0 <= j < p.len() implies done.contains(#[trigger] p[j]) by {
                if j < p.len() - 1 {
                    assert(p.drop_last()[j] == p[j]);
                }
            }
        } else {
            if forall|j: int| 0 <= j < p.len() ==> done.contains(#[trigger] p[j]) {
                assert forall|j: int| 0 <= j < p.drop_last().len() implies done.contains(#[trigger] p.drop_last()[j]) by {
                    assert(p.drop_last()[j] == p[j]);
                }
                assert(done.contains(p[p.len() - 1]));
            }
        }
    }
}

proof fn lemma_not_done_same(p: Ids, d1: Ids, d2: Ids)
    requires
        forall|x: usize| d1.contains(x) <==> d2.contains(x),
    ensures
        not_done(p, d1) == not_done(p, d2),
    decreases p.len(),
{
    if p.len() > 0 {
        lemma_not_done_same(p.drop_last(), d1, d2);
        assert(d1.contains(p.last()) <==> d2.contains(p.last()));
    }
}

proof fn lemma_not_done_all(p: Ids)
    ensures
        not_done(p, seq![]) == p,
    decreases p.len(),
{
    if p.len() > 0 {
        lemma_not_done_all(p.drop_last());
        assert(!Seq::<usize>::empty().contains(p.last()));
        assert(p.drop_last().push(p.last()) =~= p);
    }
}

proof fn lemma_remove_not_done(p: Ids, done: Ids, m: usize)
    ensures
        remove_id(not_done(p, done), m) == not_done(p, done.push(m)),
    decreases p.len(),
{
    if p.len() > 0 {
        lemma_remove_not_done(p.drop_last(), done, m);
        let l = p.last();
        let r = not_done(p.drop_last(), done);
        lemma_push_contains(done, m, l);
        if !done.contains(l) {
            assert(r.push(l).drop_last() =~= r);
            assert(r.push(l).last() == l);
        }
    }
}

proof fn lemma_open_count_same(tv: Seq<ExecTaskView>, tw: Seq<ExecTaskView>)
    requires
        tv.len() == tw.len(),
        forall|k: int| 0 <= k < tv.len() ==> ((#[trigger] tv[k]).1 == SalsaSemanticSolverTaskStateSummary::Completed
            <==> tw[k].1 == SalsaSemanticSolverTaskStateSummary::Completed),
    ensures
        open_count(tv) == open_count(tw),
    decreases tv.len(),
{
    if tv.len() > 0 {
        assert forall|k: int| 0 <= k < tv.drop_last().len() implies ((#[trigger] tv.drop_last()[k]).1
            == SalsaSemanticSolverTaskStateSummary::Completed <==> tw.drop_last()[k].1
            == SalsaSemanticSolverTaskStateSummary::Completed) by {
            assert(tv[k] == tv.drop_last()[k]);
        }
        lemma_open_count_same(tv.drop_last(), tw.drop_last());
        assert(tv[tv.len() - 1] == tv.last());
    }
}

proof fn lemma_open_count_step(tv: Seq<ExecTaskView>, tw: Seq<ExecTaskView>, m: int)
    requires
        tv.len() == tw.len(),
        0 <= m < tv.len(),
        tv[m].1 != SalsaSemanticSolverTaskStateSummary::Completed,
        tw[m].1 == SalsaSemanticSolverTaskStateSummary::Completed,
        forall|k: int| 0 <= k < tv.len() && k != m ==> ((#[trigger] tv[k]).1
            == SalsaSemanticSolverTaskStateSummary::Completed <==> tw[k].1
            == SalsaSemanticSolverTaskStateSummary::Completed),
    ensures
        open_count(tw) + 1 == open_count(tv),
    decreases tv.len(),
{
    assert forall|k: int| 0 <= k < tv.drop_last().len() && k != m implies ((#[trigger] tv.drop_last()[k]).1
        == SalsaSemanticSolverTaskStateSummary::Completed <==> tw.drop_last()[k].1
        == SalsaSemanticSolverTaskStateSummary::Completed) by {
        assert(tv[k] == tv.drop_last()[k]);
    }
    if m == tv.len() - 1 {
        lemma_open_count_same(tv.drop_last(), tw.drop_last());
    } else {
        assert(tv.drop_last()[m] == tv[m]);
        assert(tw.drop_last()[m] == tw[m]);
        lemma_open_count_step(tv.drop_last(), tw.drop_last(), m);
        assert(tv[tv.len() - 1] == tv.last());
    }
}

pub(crate) proof fn lemma_open_count_zero(tv: Seq<ExecTaskView>)
    ensures
        open_count(tv) <= tv.len(),
        open_count(tv) == 0 <==> forall|k: int| 0 <= k < tv.len() ==> (#[trigger] tv[k]).1
            == SalsaSemanticSolverTaskStateSummary::Completed,
        (forall|k: int| 0 <= k < tv.len() ==> (#[trigger] tv[k]).1 != SalsaSemanticSolverTaskStateSummary::Completed)
            ==> open_count(tv) == tv.len(),
    decreases tv.len(),
{
    if tv.len() > 0 {
        lemma_open_count_zero(tv.drop_last());
        assert forall|k: int| 0 <= k < tv.drop_last().len() implies tv.drop_last()[k] == #[trigger] tv[k] by {}
        assert(tv.last() == tv[tv.len() - 1]);
    }
}

/// A task released to ready by the completion of `id`.
pub open spec fn released_at(tv: Seq<ExecTaskView>, id: usize, j: int) -> bool {
    &&& tv[j].0 != id
    &&& tv[j].1 != SalsaSemanticSolverTaskStateSummary::Completed
    &&& remove_id(tv[j].2, id).len() == 0
}

proof fn lemma_ready_accum(tv: Seq<ExecTaskView>, id: usize, base: Ids, n: nat, x: usize)
    requires
        n <= tv.len(),
    ensures
        spec_ready_accum(tv, id, base, n).contains(x) <==> (base.contains(x) || exists|j: int|
            0 <= j < n && #[trigger] released_at(tv, id, j) && tv[j].0 == x),
    decreases n,
{
    if n > 0 {
        lemma_ready_accum(tv, id, base, (n - 1) as nat, x);
        let acc = spec_ready_accum(tv, id, base, (n - 1) as nat);
        let t = tv[n - 1];
        lemma_push_contains(acc, t.0, x);
        if exists|j: int| 0 <= j < n && #[trigger] released_at(tv, id, j) && tv[j].0 == x {
            let j = choose|j: int| 0 <= j < n && #[trigger] released_at(tv, id, j) && tv[j].0 == x;
            if j < n - 1 {
                assert(exists|j2: int| 0 <= j2 < n - 1 && #[trigger] released_at(tv, id, j2) && tv[j2].0 == x);
            }
        }
        if exists|j: int| 0 <= j < n - 1 && #[trigger] released_at(tv, id, j) && tv[j].0 == x {
            let j = choose|j: int| 0 <= j < n - 1 && #[trigger] released_at(tv, id, j) && tv[j].0 == x;
            assert(0 <= j < n && released_at(tv, id, j) && tv[j].0 == x);
        }
        if released_at(tv, id, n - 1) && t.0 == x {
            assert(0 <= n - 1 < n && released_at(tv, id, n - 1) && tv[n - 1].0 == x);
        }
    }
}

proof fn lemma_remove_id_contains(s: Ids, id: usize, x: usize)
    ensures
        remove_id(s, id).contains(x) <==> (s.contains(x) && x != id),
    decreases s.len(),
{
    if s.len() > 0 {
        lemma_remove_id_contains(s.drop_last(), id, x);
        lemma_push_contains(remove_id(s.drop_last(), id), s.last(), x);
        lemma_push_contains(s.drop_last(), s.last(), x);
        assert(s.drop_last().push(s.last()) =~= s);
    }
}

/// Where the tasks are numbered by component, the task of `m` is at `m`.
proof fn lemma_task_at_own_index(tv: Seq<ExecTaskView>, m: usize)
    requires
        m < tv.len(),
        forall|k: int| 0 <= k < tv.len() ==> (#[trigger] tv[k]).0 == k,
    ensures
        first_exec_task_index(tv, m) == m,
{
    lemma_first_exec_task_index(tv, m);
    assert(tv[m as int].0 == m);
}

/// One step keeps the bookkeeping: the least ready component, all of whose
/// predecessors are completed and which is not, becomes completed, and one task
/// fewer is open.
pub proof fn lemma_step_keeps_run_inv(
    preds: Seq<Ids>,
    e: SalsaSemanticSolverExecutionSummary,
    m: usize,
    next: SalsaSemanticSolverExecutionSummary,
)
    requires
        run_inv(preds, e),
        is_min_id(e.ready_component_ids@, m),
        spec_complete(e, m, None, next),
    ensures
        run_inv(preds, next),
        m < preds.len(),
        !e.completed_component_ids@.contains(m),
        forall|j: int| 0 <= j < preds[m as int].len() ==> e.completed_component_ids@.contains(#[trigger] preds[m as int][j]),
        forall|x: usize| next.completed_component_ids@.contains(x) <==> (e.completed_component_ids@.contains(x) || x == m),
        open_count(exec_task_views(next.tasks@)) + 1 == open_count(exec_task_views(e.tasks@)),
{
    let tv = exec_task_views(e.tasks@);
    let tw = exec_task_views(next.tasks@);
    let done = e.completed_component_ids@;
    let done2 = next.completed_component_ids@;
    let n = preds.len();
    assert(e.ready_component_ids@.contains(m));
    assert(m < n && tv[m as int].1 == SalsaSemanticSolverTaskStateSummary::Ready);
    assert(tv[m as int].0 == m);
    lemma_task_at_own_index(tv, m);
    assert(!done.contains(m));
    lemma_not_done_empty(preds[m as int], done);
    // the completed ids
    done.push(m).to_multiset_ensures();
    done2.to_multiset_ensures();
    assert forall|x: usize| done2.contains(x) <==> (done.contains(x) || x == m) by {
        lemma_push_contains(done, m, x);
        assert(done2.contains(x) <==> done2.to_multiset().count(x) > 0);
        assert(done.push(m).contains(x) <==> done.push(m).to_multiset().count(x) > 0);
    }
    assert forall|x: usize| done.push(m).contains(x) <==> done2.contains(x) by {
        lemma_push_contains(done, m, x);
    }
    // the tasks
    assert(tw.len() == n);
    assert forall|k: int| 0 <= k < tw.len() implies {
        &&& (#[trigger] tw[k]).0 == k
        &&& (tw[k].1 == SalsaSemanticSolverTaskStateSummary::Completed <==> done2.contains(k as usize))
        &&& tw[k].2 == not_done(preds[k], done2)
        &&& (tw[k].1 == SalsaSemanticSolverTaskStateSummary::Ready <==> (tw[k].1
            != SalsaSemanticSolverTaskStateSummary::Completed && tw[k].2.len() == 0))
        &&& (tw[k].1 == SalsaSemanticSolverTaskStateSummary::Completed ==> forall|j: int|
            0 <= j < preds[k].len() ==> done2.contains(#[trigger] preds[k][j]))
    } by {
        let t = tv[k];
        assert(t.0 == k);
        lemma_not_done_empty(preds[k], done2);
        lemma_not_done_empty(preds[k], done);
        if k == m {
            assert(tw[k] == (m, SalsaSemanticSolverTaskStateSummary::Completed, Seq::<usize>::empty(), t.3, t.4));
            assert forall|j: int| 0 <= j < preds[k].len() implies done2.contains(#[trigger] preds[k][j]) by {
                assert(done.contains(preds[k][j]));
            }
            assert(not_done(preds[k], done2).len() == 0);
        } else {
            assert(tw[k] == spec_release_task(t, m));
            assert(done2.contains(k as usize) <==> done.contains(k as usize));
            if t.1 == SalsaSemanticSolverTaskStateSummary::Completed {
                assert forall|j: int| 0 <= j < preds[k].len() implies done2.contains(#[trigger] preds[k][j]) by {
                    assert(done.contains(preds[k][j]));
                }
                assert(not_done(preds[k], done2).len() == 0);
                assert(not_done(preds[k], done).len() == 0);
                assert(not_done(preds[k], done2) =~= not_done(preds[k], done));
            } else {
                lemma_remove_not_done(preds[k], done, m);
                lemma_not_done_same(preds[k], done.push(m), done2);
                if t.2.len() == 0 {
                    assert(remove_id(t.2, m) =~= Seq::<usize>::empty());
                }
            }
        }
    }
    // the ready ids
    let base = remove_id(e.ready_component_ids@, m);
    let acc = spec_ready_accum(tv, m, base, tv.len());
    next.ready_component_ids@.to_multiset_ensures();
    acc.to_multiset_ensures();
    assert forall|x: usize| #![trigger next.ready_component_ids@.contains(x)]
        next.ready_component_ids@.contains(x) <==> (x < tw.len() && tw[x as int].1
            == SalsaSemanticSolverTaskStateSummary::Ready) by {
        assert(next.ready_component_ids@.to_multiset() == acc.to_multiset());
        assert(next.ready_component_ids@.to_multiset().count(x) == acc.to_multiset().count(x));
        assert(next.ready_component_ids@.contains(x) <==> acc.contains(x));
        lemma_ready_accum(tv, m, base, tv.len(), x);
        lemma_remove_id_contains(e.ready_component_ids@, m, x);
        if acc.contains(x) {
            if base.contains(x) {
                assert(e.ready_component_ids@.contains(x));
                assert(tv[x as int].2.len() == 0);
                assert(remove_id(tv[x as int].2, m) =~= Seq::<usize>::empty());
            } else {
                let j = choose|j: int| 0 <= j < tv.len() && #[trigger] released_at(tv, m, j) && tv[j].0 == x;
                assert(tv[j].0 == j);
            }
        }
        if x < tw.len() && tw[x as int].1 == SalsaSemanticSolverTaskStateSummary::Ready {
            let t = tv[x as int];
            if x != m {
                assert(tw[x as int] == spec_release_task(t, m));
                if t.1 == SalsaSemanticSolverTaskStateSummary::Ready {
                    assert(e.ready_component_ids@.contains(x));
                } else {
                    assert(released_at(tv, m, x as int));
                }
            }
        }
    }
    // one task fewer is open
    assert forall|k: int| 0 <= k < tv.len() && k != m implies ((#[trigger] tv[k]).1
        == SalsaSemanticSolverTaskStateSummary::Completed <==> tw[k].1
        == SalsaSemanticSolverTaskStateSummary::Completed) by {
        assert(tw[k] == spec_release_task(tv[k], m));
    }
    lemma_open_count_step(tv, tw, m as int);
}

/// While a task is open, some task is ready: following predecessors that are
/// not completed leads to later and later components, and ends at one that
/// waits for nothing.
pub(crate) proof fn lemma_ready_exists(preds: Seq<Ids>, e: SalsaSemanticSolverExecutionSummary, k: int)
    requires
        preds_point_forward(preds),
        run_inv(preds, e),
        0 <= k < preds.len(),
        exec_task_views(e.tasks@)[k].1 != SalsaSemanticSolverTaskStateSummary::Completed,
    ensures
        e.ready_component_ids@.len() > 0,
    decreases preds.len() - k,
{
    let tv = exec_task_views(e.tasks@);
    let done = e.completed_component_ids@;
    lemma_not_done_empty(preds[k], done);
    assert(tv[k].0 == k);
    if tv[k].2.len() == 0 {
        assert(e.ready_component_ids@.contains(k as usize));
    } else {
        let j = choose|j: int| 0 <= j < preds[k].len() && !done.contains(#[trigger] preds[k][j]);
        let d = preds[k][j];
        assert(k < d < preds.len());
        assert(tv[d as int].0 == d);
        lemma_ready_exists(preds, e, d as int);
    }
}

/// A run of steps: each execution is followed by the one that completing its
/// least ready component gives.
pub open spec fn solver_trace(es: Seq<SalsaSemanticSolverExecutionSummary>, ms: Seq<usize>) -> bool {
    &&& es.len() == ms.len() + 1
    &&& forall|j: int|
        #![trigger ms[j]]
        0 <= j < ms.len() ==> is_min_id(es[j].ready_component_ids@, ms[j]) && spec_complete(es[j], ms[j], None, es[j + 1])
}

pub(crate) proof fn lemma_trace_prefix(preds: Seq<Ids>, es: Seq<SalsaSemanticSolverExecutionSummary>, ms: Seq<usize>, j: int)
    requires
        run_inv(preds, es[0]),
        es[0].completed_component_ids@.len() == 0,
        solver_trace(es, ms),
        0 <= j <= ms.len(),
    ensures
        run_inv(preds, es[j]),
        open_count(exec_task_views(es[j].tasks@)) + j == preds.len(),
        forall|x: usize| es[j].completed_component_ids@.contains(x) <==> ms.take(j).contains(x),
        forall|i: int| 0 <= i < j ==> (#[trigger] ms[i]) < preds.len(),
    decreases j,
{
    if j == 0 {
        let tv = exec_task_views(es[0].tasks@);
        assert forall|k: int| 0 <= k < tv.len() implies (#[trigger] tv[k]).1
            != SalsaSemanticSolverTaskStateSummary::Completed by {
            assert(!es[0].completed_component_ids@.contains(k as usize));
        }
        lemma_open_count_zero(tv);
        assert forall|x: usize| es[0].completed_component_ids@.contains(x) <==> ms.take(0).contains(x) by {
            assert(ms.take(0).len() == 0);
        }
    } else {
        lemma_trace_prefix(preds, es, ms, j - 1);
        let m = ms[j - 1];
        assert(is_min_id(es[j - 1].ready_component_ids@, m) && spec_complete(es[j - 1], m, None, es[j]));
        lemma_step_keeps_run_inv(preds, es[j - 1], m, es[j]);
        assert(ms.take(j) =~= ms.take(j - 1).push(m));
        assert forall|x: usize| es[j].completed_component_ids@.contains(x) <==> ms.take(j).contains(x) by {
            lemma_push_contains(ms.take(j - 1), m, x);
        }
    }
}

/// The predecessor ids of each component, in component order.
pub open spec fn component_preds(cs: Seq<SalsaSemanticGraphSccComponentSummary>) -> Seq<Ids> {
    cs.map_values(|c: SalsaSemanticGraphSccComponentSummary| c.predecessor_component_ids@)
}

pub(crate) proof fn lemma_scc_preds_point_forward(graph: SalsaSemanticGraphSummary, scc: SalsaSemanticGraphSccIndex)
    requires
        spec_scc_index(graph, scc),
    ensures
        preds_point_forward(component_preds(scc.components@)),
{
    let preds = component_preds(scc.components@);
    let nodes = graph.nodes@;
    let edges = graph.edges@;
    let ids = scc.node_component_ids@;
    assert forall|c: int, j: int| 0 <= c < preds.len() && 0 <= j < preds[c].len() implies c < #[trigger] preds[c][j]
        < preds.len() by {
        let comp = scc.components@[c];
        let d = preds[c][j];
        assert(comp.predecessor_component_ids@.contains(d));
        assert(spec_component_successor(nodes, edges, ids, d as int, c));
        let k = choose|k: int| 0 <= k < edges.len() && component_edge(nodes, #[trigger] edges[k], ids, d as int, c);
        let (a, b) = spec_edge_ends(nodes, edges[k])->0;
        lemma_last_node_index(nodes, edges[k].from);
        lemma_last_node_index(nodes, edges[k].to);
        assert(ids[b] <= ids[a]);
        assert(ids[a] < scc.components@.len());
    }
}

proof fn lemma_ready_ids(cs: Seq<SalsaSemanticGraphSccComponentSummary>, x: usize)
    requires
        forall|i: int| 0 <= i < cs.len() ==> (#[trigger] cs[i]).component_id == i,
    ensures
        spec_ready_ids(cs).contains(x) <==> (x < cs.len() && cs[x as int].predecessor_component_ids@.len() == 0),
    decreases cs.len(),
{
    if cs.len() > 0 {
        assert forall|i: int| 0 <= i < cs.drop_last().len() implies (#[trigger] cs.drop_last()[i]).component_id == i by {
            assert(cs.drop_last()[i] == cs[i]);
        }
        lemma_ready_ids(cs.drop_last(), x);
        lemma_push_contains(spec_ready_ids(cs.drop_last()), cs.last().component_id, x);
        assert(cs.last() == cs[cs.len() - 1]);
        if x < cs.len() - 1 {
            assert(cs.drop_last()[x as int] == cs[x as int]);
        }
    }
}

pub(crate) proof fn lemma_initial_run_inv(
    graph: SalsaSemanticGraphSummary,
    scc: SalsaSemanticGraphSccIndex,
    w: SalsaSemanticSolverWorklistSummary,
    e: SalsaSemanticSolverExecutionSummary,
)
    requires
        spec_scc_index(graph, scc),
        spec_worklist(scc, w),
        spec_initial_execution(w, e),
    ensures
        run_inv(component_preds(scc.components@), e),
{
    let cs = scc.components@;
    let preds = component_preds(cs);
    let tv = exec_task_views(e.tasks@);
    let wt = task_views(w.tasks@);
    assert(wt.len() == cs.len());
    assert forall|i: int| 0 <= i < cs.len() implies (#[trigger] cs[i]).component_id == i by {}
    assert forall|k: int| #![trigger tv[k]] 0 <= k < tv.len() implies {
        &&& tv[k].0 == k
        &&& (tv[k].1 == SalsaSemanticSolverTaskStateSummary::Completed <==> e.completed_component_ids@.contains(k as usize))
        &&& tv[k].2 == not_done(preds[k], e.completed_component_ids@)
        &&& (tv[k].1 == SalsaSemanticSolverTaskStateSummary::Ready <==> (tv[k].1
            != SalsaSemanticSolverTaskStateSummary::Completed && tv[k].2.len() == 0))
        &&& (tv[k].1 == SalsaSemanticSolverTaskStateSummary::Completed ==> forall|j: int|
            0 <= j < preds[k].len() ==> e.completed_component_ids@.contains(#[trigger] preds[k][j]))
    } by {
        assert(wt[k] == w.tasks@[k]@);
        assert(e.completed_component_ids@ =~= Seq::<usize>::empty());
        lemma_not_done_all(preds[k]);
    }
    assert forall|x: usize| #![trigger e.ready_component_ids@.contains(x)]
        e.ready_component_ids@.contains(x) <==> (x < tv.len() && tv[x as int].1
            == SalsaSemanticSolverTaskStateSummary::Ready) by {
        lemma_ready_ids(cs, x);
        if x < tv.len() {
            assert(wt[x as int] == w.tasks@[x as int]@);
        }
    }
}

} // verus!
