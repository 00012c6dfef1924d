//! The solver's worklist over the components of the semantic graph, and the
//! execution that completes components one at a time in dependency order.
use vstd::prelude::*;

use crate::offsets::{sorted_usize, sort_usize};
use vstd::multiset::Multiset;
use crate::semantic_graph::{SalsaSemanticGraphSccComponentSummary, SalsaSemanticGraphSccIndex};
use crate::semantic_solver::{SalsaSemanticValueShellSummary, clone_shell};

verus! {

/// A view of a sequence of ids.
pub type Ids = Seq<usize>;

/// The solved values of one component.
#[derive(Clone, Debug)]
pub struct SalsaSemanticSolverComponentResultSummary {
    pub component_id: usize,
    pub decl_ids: Vec<u32>,
    pub member_targets: Vec<u32>,
    pub signature_offsets: Vec<u32>,
    pub for_range_loop_offsets: Vec<u32>,
    pub includes_module_export: bool,
    pub consumed_predecessor_component_ids: Vec<usize>,
    pub input_value_shell: SalsaSemanticValueShellSummary,
    pub propagated_value_shell: SalsaSemanticValueShellSummary,
    pub local_value_shell: SalsaSemanticValueShellSummary,
    pub value_shell: SalsaSemanticValueShellSummary,
    pub fixedpoint_value_shell: SalsaSemanticValueShellSummary,
    pub fixedpoint_iterations: usize,
    pub is_cycle: bool,
}

pub type ShellView = (crate::semantic_solver::SalsaSemanticResolveStateSummary, Seq<u32>);

impl View for SalsaSemanticSolverComponentResultSummary {
    type V = ((usize, bool, bool, usize), (Seq<u32>, Seq<u32>, Seq<u32>, Seq<u32>, Ids), (ShellView, ShellView, ShellView, ShellView, ShellView));

    open spec fn view(&self) -> Self::V {
        (
            (self.component_id, self.is_cycle, self.includes_module_export, self.fixedpoint_iterations),
            (self.decl_ids@, self.member_targets@, self.signature_offsets@, self.for_range_loop_offsets@,
                self.consumed_predecessor_component_ids@),
            (self.input_value_shell@, self.propagated_value_shell@, self.local_value_shell@, self.value_shell@,
                self.fixedpoint_value_shell@),
        )
    }
}

/// One component as a task of the worklist.
#[derive(Clone, Debug)]
pub struct SalsaSemanticSolverComponentTaskSummary {
    pub component_id: usize,
    pub predecessor_component_ids: Vec<usize>,
    pub successor_component_ids: Vec<usize>,
    pub is_cycle: bool,
}

impl View for SalsaSemanticSolverComponentTaskSummary {
    type V = (usize, Ids, Ids, bool);

    open spec fn view(&self) -> Self::V {
        (self.component_id, self.predecessor_component_ids@, self.successor_component_ids@, self.is_cycle)
    }
}

#[derive(Clone, Debug)]
pub struct SalsaSemanticSolverWorklistSummary {
    pub tasks: Vec<SalsaSemanticSolverComponentTaskSummary>,
    pub ready_component_ids: Vec<usize>,
    pub topo_order: Vec<usize>,
}

#[derive(Clone, Copy, Debug, PartialEq, Eq, Structural)]
pub enum SalsaSemanticSolverTaskStateSummary {
    Blocked,
    Ready,
    Completed,
}

/// A task during execution, with the predecessors it still waits for.
#[derive(Clone, Debug)]
pub struct SalsaSemanticSolverExecutionTaskSummary {
    pub component_id: usize,
    pub state: SalsaSemanticSolverTaskStateSummary,
    pub pending_predecessor_component_ids: Vec<usize>,
    pub successor_component_ids: Vec<usize>,
    pub is_cycle: bool,
}

impl View for SalsaSemanticSolverExecutionTaskSummary {
    type V = (usize, SalsaSemanticSolverTaskStateSummary, Ids, Ids, bool);

    open spec fn view(&self) -> Self::V {
        (self.component_id, self.state, self.pending_predecessor_component_ids@, self.successor_component_ids@, self.is_cycle)
    }
}

#[derive(Clone, Debug)]
pub struct SalsaSemanticSolverExecutionSummary {
    pub tasks: Vec<SalsaSemanticSolverExecutionTaskSummary>,
    pub ready_component_ids: Vec<usize>,
    pub completed_component_ids: Vec<usize>,
    pub component_results: Vec<SalsaSemanticSolverComponentResultSummary>,
}

#[derive(Clone, Debug)]
pub struct SalsaSemanticSolverStepSummary {
    pub completed_component_id: usize,
    pub component_result: Option<SalsaSemanticSolverComponentResultSummary>,
    pub next_execution: SalsaSemanticSolverExecutionSummary,
}

pub open spec fn task_views(s: Seq<SalsaSemanticSolverComponentTaskSummary>) -> Seq<(usize, Ids, Ids, bool)> {
    s.map_values(|t: SalsaSemanticSolverComponentTaskSummary| t@)
}

pub open spec fn exec_task_views(s: Seq<SalsaSemanticSolverExecutionTaskSummary>) -> Seq<(usize, SalsaSemanticSolverTaskStateSummary, Ids, Ids, bool)> {
    s.map_values(|t: SalsaSemanticSolverExecutionTaskSummary| t@)
}

pub open spec fn result_views(s: Seq<SalsaSemanticSolverComponentResultSummary>) -> Seq<<SalsaSemanticSolverComponentResultSummary as View>::V> {
    s.map_values(|r: SalsaSemanticSolverComponentResultSummary| r@)
}

/// A copy of a vector of ids.
pub fn clone_ids(v: &Vec<usize>) -> (r: Vec<usize>)
    ensures
        r@ == v@,
{
    let mut r: Vec<usize> = Vec::new();
    let mut i: usize = 0;
    while i < v.len()
        invariant
            i <= v@.len(),
            r@ =~= v@.take(i as int),
        decreases v@.len() - i,
    {
        r.push(v[i]);
        i = i + 1;
    }
    assert(v@.take(i as int) =~= v@);
    r
}

fn clone_u32s(v: &Vec<u32>) -> (r: Vec<u32>)
    ensures
        r@ == v@,
{
    let mut r: Vec<u32> = Vec::new();
    let mut i: usize = 0;
    while i < v.len()
        invariant
            i <= v@.len(),
            r@ =~= v@.take(i as int),
        decreases v@.len() - i,
    {
        r.push(v[i]);
        i = i + 1;
    }
    assert(v@.take(i as int) =~= v@);
    r
}

/// A copy of a component result.
pub fn clone_component_result(r: &SalsaSemanticSolverComponentResultSummary) -> (c: SalsaSemanticSolverComponentResultSummary)
    ensures
        c@ == r@,
{
    SalsaSemanticSolverComponentResultSummary {
        component_id: r.component_id,
        decl_ids: clone_u32s(&r.decl_ids),
        member_targets: clone_u32s(&r.member_targets),
        signature_offsets: clone_u32s(&r.signature_offsets),
        for_range_loop_offsets: clone_u32s(&r.for_range_loop_offsets),
        includes_module_export: r.includes_module_export,
        consumed_predecessor_component_ids: clone_ids(&r.consumed_predecessor_component_ids),
        input_value_shell: clone_shell(&r.input_value_shell),
        propagated_value_shell: clone_shell(&r.propagated_value_shell),
        local_value_shell: clone_shell(&r.local_value_shell),
        value_shell: clone_shell(&r.value_shell),
        fixedpoint_value_shell: clone_shell(&r.fixedpoint_value_shell),
        fixedpoint_iterations: r.fixedpoint_iterations,
        is_cycle: r.is_cycle,
    }
}

pub fn clone_task(t: &SalsaSemanticSolverComponentTaskSummary) -> (c: SalsaSemanticSolverComponentTaskSummary)
    ensures
        c@ == t@,
{
    SalsaSemanticSolverComponentTaskSummary {
        component_id: t.component_id,
        predecessor_component_ids: clone_ids(&t.predecessor_component_ids),
        successor_component_ids: clone_ids(&t.successor_component_ids),
        is_cycle: t.is_cycle,
    }
}

pub fn clone_execution_task(t: &SalsaSemanticSolverExecutionTaskSummary) -> (c: SalsaSemanticSolverExecutionTaskSummary)
    ensures
        c@ == t@,
{
    SalsaSemanticSolverExecutionTaskSummary {
        component_id: t.component_id,
        state: t.state,
        pending_predecessor_component_ids: clone_ids(&t.pending_predecessor_component_ids),
        successor_component_ids: clone_ids(&t.successor_component_ids),
        is_cycle: t.is_cycle,
    }
}

/// The worklist of a component index: one task per component, in component
/// order; the ready ones are those without predecessors.
pub open spec fn spec_worklist(scc: SalsaSemanticGraphSccIndex, w: SalsaSemanticSolverWorklistSummary) -> bool {
    let cs = scc.components@;
    &&& task_views(w.tasks@) == Seq::new(cs.len(), |i: int|
            (cs[i].component_id, cs[i].predecessor_component_ids@, cs[i].successor_component_ids@, cs[i].is_cycle))
    &&& w.ready_component_ids@ == spec_ready_ids(cs)
    &&& w.topo_order@ == scc.topo_order@
}

/// The ids of the components without predecessors, in component order.
pub open spec fn spec_ready_ids(cs: Seq<SalsaSemanticGraphSccComponentSummary>) -> Ids
    decreases cs.len(),
{
    if cs.len() == 0 {
        seq![]
    } else {
        let rest = spec_ready_ids(cs.drop_last());
        if cs.last().predecessor_component_ids@.len() == 0 { rest.push(cs.last().component_id) } else { rest }
    }
}

/// Builds the worklist of the solver from the components of the semantic graph.
pub fn build_semantic_solver_worklist(scc_index: &SalsaSemanticGraphSccIndex) -> (w: SalsaSemanticSolverWorklistSummary)
    ensures
        spec_worklist(*scc_index, w),
{
    let cs = &scc_index.components;
    let mut tasks: Vec<SalsaSemanticSolverComponentTaskSummary> = Vec::new();
    let mut ready: Vec<usize> = Vec::new();
    let mut i: usize = 0;
    while i < cs.len()
        invariant
            i <= cs@.len(),
            cs == &scc_index.components,
            tasks@.len() == i,
            forall|k: int| 0 <= k < i ==> #[trigger] tasks@[k]@ ==
                (cs@[k].component_id, cs@[k].predecessor_component_ids@, cs@[k].successor_component_ids@, cs@[k].is_cycle),
            ready@ == spec_ready_ids(cs@.take(i as int)),
        decreases cs@.len() - i,
    {
        let c = &cs[i];
        let ghost before = tasks@;
        tasks.push(SalsaSemanticSolverComponentTaskSummary {
            component_id: c.component_id,
            predecessor_component_ids: clone_ids(&c.predecessor_component_ids),
            successor_component_ids: clone_ids(&c.successor_component_ids),
            is_cycle: c.is_cycle,
        });
        assert forall|k: int| 0 <= k < i implies tasks@[k] == before[k] by {}
        assert(cs@.take(i + 1).drop_last() =~= cs@.take(i as int));
        if c.predecessor_component_ids.len() == 0 {
            ready.push(c.component_id);
        }
        i = i + 1;
    }
    assert(cs@.take(i as int) =~= cs@);
    assert(task_views(tasks@) =~= Seq::new(cs@.len(), |k: int|
        (cs@[k].component_id, cs@[k].predecessor_component_ids@, cs@[k].successor_component_ids@, cs@[k].is_cycle)));
    SalsaSemanticSolverWorklistSummary { tasks, ready_component_ids: ready, topo_order: clone_ids(&scc_index.topo_order) }
}

/// Index of the first task of component `id`, or -1.
pub open spec fn first_task_index(tasks: Seq<(usize, Ids, Ids, bool)>, id: usize) -> int
    decreases tasks.len(),
{
    if tasks.len() == 0 {
        -1
    } else {
        let r = first_task_index(tasks.drop_last(), id);
        if r >= 0 { r } else if tasks.last().0 == id { tasks.len() - 1 } else { -1 }
    }
}

pub proof fn lemma_first_task_index(tasks: Seq<(usize, Ids, Ids, bool)>, id: usize)
    ensures
        -1 <= first_task_index(tasks, id) < tasks.len(),
        first_task_index(tasks, id) >= 0 ==> tasks[first_task_index(tasks, id)].0 == id,
        forall|k: int| 0 <= k < tasks.len() && (first_task_index(tasks, id) == -1 || k < first_task_index(tasks, id))
            ==> tasks[k].0 != id,
    decreases tasks.len(),
{
    if tasks.len() > 0 {
        lemma_first_task_index(tasks.drop_last(), id);
        let r = first_task_index(tasks, id);
        assert forall|k: int| 0 <= k < tasks.len() && (r == -1 || k < r) implies tasks[k].0 != id by {
            if k < tasks.len() - 1 {
                assert(tasks.drop_last()[k] == tasks[k]);
            }
        }
    }
}

/// Finds the task of component `component_id`.
pub fn find_semantic_solver_task(worklist: &SalsaSemanticSolverWorklistSummary, component_id: usize) -> (r: Option<SalsaSemanticSolverComponentTaskSummary>)
    ensures
        ({
            let i = first_task_index(task_views(worklist.tasks@), component_id);
            match r {
                Some(t) => i >= 0 && t@ == task_views(worklist.tasks@)[i],
                None => i == -1,
            }
        }),
{
    let ghost tv = task_views(worklist.tasks@);
    proof { lemma_first_task_index(tv, component_id); }
    let mut i: usize = 0;
    while i < worklist.tasks.len()
        invariant
            i <= worklist.tasks@.len(),
            tv == task_views(worklist.tasks@),
            first_task_index(tv.take(i as int), component_id) == -1,
        decreases worklist.tasks@.len() - i,
    {
        assert(tv.take(i + 1).drop_last() =~= tv.take(i as int));
        if worklist.tasks[i].component_id == component_id {
            proof { lemma_first_task_index_prefix(tv, component_id, i + 1); }
            return Some(clone_task(&worklist.tasks[i]));
        }
        i = i + 1;
    }
    assert(tv.take(i as int) =~= tv);
    None
}

pub proof fn lemma_first_task_index_prefix(tasks: Seq<(usize, Ids, Ids, bool)>, id: usize, n: int)
    requires
        0 <= n <= tasks.len(),
        first_task_index(tasks.take(n), id) >= 0,
    ensures
        first_task_index(tasks, id) == first_task_index(tasks.take(n), id),
    decreases tasks.len() - n,
{
    if n < tasks.len() {
        assert(tasks.take(n + 1).drop_last() =~= tasks.take(n));
        lemma_first_task_index_prefix(tasks, id, n + 1);
    } else {
        assert(tasks.take(n) =~= tasks);
    }
}

} // verus!

verus! {

pub type ExecTaskView = (usize, SalsaSemanticSolverTaskStateSummary, Ids, Ids, bool);
pub type ResultView = <SalsaSemanticSolverComponentResultSummary as View>::V;

/// The tasks of the ready ids, in that order; ids without a task are skipped.
pub open spec fn spec_ready_tasks(tv: Seq<(usize, Ids, Ids, bool)>, ready: Ids) -> Seq<(usize, Ids, Ids, bool)>
    decreases ready.len(),
{
    if ready.len() == 0 {
        seq![]
    } else {
        let rest = spec_ready_tasks(tv, ready.drop_last());
        let i = first_task_index(tv, ready.last());
        if i >= 0 { rest.push(tv[i]) } else { rest }
    }
}

/// Collects the tasks that are ready to run.
pub fn collect_semantic_solver_ready_tasks(worklist: &SalsaSemanticSolverWorklistSummary) -> (r: Vec<SalsaSemanticSolverComponentTaskSummary>)
    ensures
        task_views(r@) == spec_ready_tasks(task_views(worklist.tasks@), worklist.ready_component_ids@),
{
    let ghost tv = task_views(worklist.tasks@);
    let ghost ready = worklist.ready_component_ids@;
    let mut r: Vec<SalsaSemanticSolverComponentTaskSummary> = Vec::new();
    let mut i: usize = 0;
    while i < worklist.ready_component_ids.len()
        invariant
            i <= ready.len(),
            tv == task_views(worklist.tasks@),
            ready == worklist.ready_component_ids@,
            task_views(r@) == spec_ready_tasks(tv, ready.take(i as int)),
        decreases ready.len() - i,
    {
        assert(ready.take(i + 1).drop_last() =~= ready.take(i as int));
        let ghost before = r@;
        if let Some(t) = find_semantic_solver_task(worklist, worklist.ready_component_ids[i]) {
            r.push(t);
            assert(task_views(r@) =~= task_views(before).push(t@));
        }
        i = i + 1;
    }
    assert(ready.take(i as int) =~= ready);
    r
}

/// The execution of a worklist before any step: tasks without predecessors are
/// ready, the others blocked on all their predecessors.
pub open spec fn spec_initial_execution(w: SalsaSemanticSolverWorklistSummary, e: SalsaSemanticSolverExecutionSummary) -> bool {
    &&& exec_task_views(e.tasks@) == Seq::new(w.tasks@.len(), |i: int| {
            let t = w.tasks@[i];
            (t.component_id,
                if t.predecessor_component_ids@.len() == 0 { SalsaSemanticSolverTaskStateSummary::Ready }
                else { SalsaSemanticSolverTaskStateSummary::Blocked },
                t.predecessor_component_ids@, t.successor_component_ids@, t.is_cycle)
        })
    &&& e.ready_component_ids@ == w.ready_component_ids@
    &&& e.completed_component_ids@.len() == 0
    &&& e.component_results@.len() == 0
}

/// Starts the execution of a worklist.
pub fn build_semantic_solver_execution(worklist: &SalsaSemanticSolverWorklistSummary) -> (e: SalsaSemanticSolverExecutionSummary)
    ensures
        spec_initial_execution(*worklist, e),
{
    let ts = &worklist.tasks;
    let mut tasks: Vec<SalsaSemanticSolverExecutionTaskSummary> = Vec::new();
    let mut i: usize = 0;
    while i < ts.len()
        invariant
            i <= ts@.len(),
            ts == &worklist.tasks,
            tasks@.len() == i,
            forall|k: int| 0 <= k < i ==> #[trigger] tasks@[k]@ == {
                let t = ts@[k];
                (t.component_id,
                    if t.predecessor_component_ids@.len() == 0 { SalsaSemanticSolverTaskStateSummary::Ready }
                    else { SalsaSemanticSolverTaskStateSummary::Blocked },
                    t.predecessor_component_ids@, t.successor_component_ids@, t.is_cycle)
            },
        decreases ts@.len() - i,
    {
        let t = &ts[i];
        let ghost before = tasks@;
        tasks.push(SalsaSemanticSolverExecutionTaskSummary {
            component_id: t.component_id,
            state: if t.predecessor_component_ids.len() == 0 {
                SalsaSemanticSolverTaskStateSummary::Ready
            } else {
                SalsaSemanticSolverTaskStateSummary::Blocked
            },
            pending_predecessor_component_ids: clone_ids(&t.predecessor_component_ids),
            successor_component_ids: clone_ids(&t.successor_component_ids),
            is_cycle: t.is_cycle,
        });
        assert forall|k: int| 0 <= k < i implies tasks@[k] == before[k] by {}
        i = i + 1;
    }
    let e = SalsaSemanticSolverExecutionSummary {
        tasks,
        ready_component_ids: clone_ids(&worklist.ready_component_ids),
        completed_component_ids: Vec::new(),
        component_results: Vec::new(),
    };
    assert(exec_task_views(e.tasks@) =~= Seq::new(worklist.tasks@.len(), |i: int| {
        let t = worklist.tasks@[i];
        (t.component_id,
            if t.predecessor_component_ids@.len() == 0 { SalsaSemanticSolverTaskStateSummary::Ready }
            else { SalsaSemanticSolverTaskStateSummary::Blocked },
            t.predecessor_component_ids@, t.successor_component_ids@, t.is_cycle)
    }));
    e
}

/// Index of the first element of `s` whose key is `id`, or -1.
pub open spec fn first_exec_task_index(s: Seq<ExecTaskView>, id: usize) -> int
    decreases s.len(),
{
    if s.len() == 0 {
        -1
    } else {
        let r = first_exec_task_index(s.drop_last(), id);
        if r >= 0 { r } else if s.last().0 == id { s.len() - 1 } else { -1 }
    }
}

pub proof fn lemma_first_exec_task_index(s: Seq<ExecTaskView>, id: usize)
    ensures
        -1 <= first_exec_task_index(s, id) < s.len(),
        first_exec_task_index(s, id) >= 0 ==> s[first_exec_task_index(s, id)].0 == id,
        forall|k: int| 0 <= k < s.len() && (first_exec_task_index(s, id) == -1 || k < first_exec_task_index(s, id))
            ==> s[k].0 != id,
    decreases s.len(),
{
    if s.len() > 0 {
        lemma_first_exec_task_index(s.drop_last(), id);
        let r = first_exec_task_index(s, id);
        assert forall|k: int| 0 <= k < s.len() && (r == -1 || k < r) implies s[k].0 != id by {
            if k < s.len() - 1 {
                assert(s.drop_last()[k] == s[k]);
            }
        }
    }
}

pub proof fn lemma_first_exec_task_index_prefix(s: Seq<ExecTaskView>, id: usize, n: int)
    requires
        0 <= n <= s.len(),
        first_exec_task_index(s.take(n), id) >= 0,
    ensures
        first_exec_task_index(s, id) == first_exec_task_index(s.take(n), id),
    decreases s.len() - n,
{
    if n < s.len() {
        assert(s.take(n + 1).drop_last() =~= s.take(n));
        lemma_first_exec_task_index_prefix(s, id, n + 1);
    } else {
        assert(s.take(n) =~= s);
    }
}

/// Index of the first task of component `id` in an execution.
pub fn find_execution_task_index(execution: &SalsaSemanticSolverExecutionSummary, id: usize) -> (r: Option<usize>)
    ensures
        match r {
            Some(i) => i as int == first_exec_task_index(exec_task_views(execution.tasks@), id) && i < execution.tasks@.len(),
            None => first_exec_task_index(exec_task_views(execution.tasks@), id) == -1,
        },
{
    let ghost tv = exec_task_views(execution.tasks@);
    proof { lemma_first_exec_task_index(tv, id); }
    let mut i: usize = 0;
    while i < execution.tasks.len()
        invariant
            i <= execution.tasks@.len(),
            tv == exec_task_views(execution.tasks@),
            first_exec_task_index(tv.take(i as int), id) == -1,
        decreases execution.tasks@.len() - i,
    {
        assert(tv.take(i + 1).drop_last() =~= tv.take(i as int));
        if execution.tasks[i].component_id == id {
            proof { lemma_first_exec_task_index_prefix(tv, id, i + 1); }
            return Some(i);
        }
        i = i + 1;
    }
    assert(tv.take(i as int) =~= tv);
    None
}

/// Finds the task of component `component_id` in an execution.
pub fn find_semantic_solver_execution_task(execution: &SalsaSemanticSolverExecutionSummary, component_id: usize) -> (r: Option<SalsaSemanticSolverExecutionTaskSummary>)
    ensures
        ({
            let tv = exec_task_views(execution.tasks@);
            let i = first_exec_task_index(tv, component_id);
            match r {
                Some(t) => i >= 0 && t@ == tv[i],
                None => i == -1,
            }
        }),
{
    match find_execution_task_index(execution, component_id) {
        Some(i) => Some(clone_execution_task(&execution.tasks[i])),
        None => None,
    }
}

/// Index of the first result of component `id`, or -1.
pub open spec fn first_result_index(s: Seq<ResultView>, id: usize) -> int
    decreases s.len(),
{
    if s.len() == 0 {
        -1
    } else {
        let r = first_result_index(s.drop_last(), id);
        if r >= 0 { r } else if s.last().0.0 == id { s.len() - 1 } else { -1 }
    }
}

pub proof fn lemma_first_result_index(s: Seq<ResultView>, id: usize)
    ensures
        -1 <= first_result_index(s, id) < s.len(),
        first_result_index(s, id) >= 0 ==> s[first_result_index(s, id)].0.0 == id,
        forall|k: int| 0 <= k < s.len() && (first_result_index(s, id) == -1 || k < first_result_index(s, id))
            ==> s[k].0.0 != id,
    decreases s.len(),
{
    if s.len() > 0 {
        lemma_first_result_index(s.drop_last(), id);
        let r = first_result_index(s, id);
        assert forall|k: int| 0 <= k < s.len() && (r == -1 || k < r) implies s[k].0.0 != id by {
            if k < s.len() - 1 {
                assert(s.drop_last()[k] == s[k]);
            }
        }
    }
}

pub proof fn lemma_first_result_index_prefix(s: Seq<ResultView>, id: usize, n: int)
    requires
        0 <= n <= s.len(),
        first_result_index(s.take(n), id) >= 0,
    ensures
        first_result_index(s, id) == first_result_index(s.take(n), id),
    decreases s.len() - n,
{
    if n < s.len() {
        assert(s.take(n + 1).drop_last() =~= s.take(n));
        lemma_first_result_index_prefix(s, id, n + 1);
    } else {
        assert(s.take(n) =~= s);
    }
}

/// Finds the result of component `component_id` in an execution.
pub fn find_semantic_solver_component_result(execution: &SalsaSemanticSolverExecutionSummary, component_id: usize) -> (r: Option<SalsaSemanticSolverComponentResultSummary>)
    ensures
        ({
            let rv = result_views(execution.component_results@);
            let i = first_result_index(rv, component_id);
            match r {
                Some(res) => i >= 0 && res@ == rv[i],
                None => i == -1,
            }
        }),
{
    let ghost rv = result_views(execution.component_results@);
    proof { lemma_first_result_index(rv, component_id); }
    let mut i: usize = 0;
    while i < execution.component_results.len()
        invariant
            i <= execution.component_results@.len(),
            rv == result_views(execution.component_results@),
            first_result_index(rv.take(i as int), component_id) == -1,
        decreases execution.component_results@.len() - i,
    {
        assert(rv.take(i + 1).drop_last() =~= rv.take(i as int));
        if execution.component_results[i].component_id == component_id {
            proof { lemma_first_result_index_prefix(rv, component_id, i + 1); }
            return Some(clone_component_result(&execution.component_results[i]));
        }
        i = i + 1;
    }
    assert(rv.take(i as int) =~= rv);
    None
}

/// Whether every task of the execution is completed.
pub fn semantic_solver_execution_is_complete(execution: &SalsaSemanticSolverExecutionSummary) -> (r: bool)
    ensures
        r == forall|k: int| 0 <= k < execution.tasks@.len()
            ==> #[trigger] execution.tasks@[k].state == SalsaSemanticSolverTaskStateSummary::Completed,
{
    let mut i: usize = 0;
    while i < execution.tasks.len()
        invariant
            i <= execution.tasks@.len(),
            forall|k: int| 0 <= k < i ==> #[trigger] execution.tasks@[k].state == SalsaSemanticSolverTaskStateSummary::Completed,
        decreases execution.tasks@.len() - i,
    {
        if execution.tasks[i].state != SalsaSemanticSolverTaskStateSummary::Completed {
            return false;
        }
        i = i + 1;
    }
    true
}

/// `m` is the least of the ids `s`.
pub open spec fn is_min_id(s: Ids, m: usize) -> bool {
    s.contains(m) && forall|k: int| 0 <= k < s.len() ==> m <= s[k]
}

/// The least of the ready ids, when there is one.
fn min_ready_id(execution: &SalsaSemanticSolverExecutionSummary) -> (r: Option<usize>)
    ensures
        match r {
            Some(m) => is_min_id(execution.ready_component_ids@, m),
            None => execution.ready_component_ids@.len() == 0,
        },
{
    let ready = &execution.ready_component_ids;
    if ready.len() == 0 {
        return None;
    }
    let mut m = ready[0];
    let mut i: usize = 1;
    while i < ready.len()
        invariant
            1 <= i <= ready@.len(),
            ready == &execution.ready_component_ids,
            ready@.contains(m),
            forall|k: int| 0 <= k < i ==> m <= ready@[k],
        decreases ready@.len() - i,
    {
        if ready[i] < m {
            m = ready[i];
            assert(ready@[i as int] == m);
        }
        i = i + 1;
    }
    Some(m)
}

/// The task of the ready component with the least id.
pub fn find_next_ready_semantic_solver_execution_task(execution: &SalsaSemanticSolverExecutionSummary) -> (r: Option<SalsaSemanticSolverExecutionTaskSummary>)
    ensures
        execution.ready_component_ids@.len() == 0 ==> r.is_none(),
        execution.ready_component_ids@.len() > 0 ==> exists|m: usize| #[trigger] is_min_id(execution.ready_component_ids@, m) && {
            let tv = exec_task_views(execution.tasks@);
            let i = first_exec_task_index(tv, m);
            match r {
                Some(t) => i >= 0 && t@ == tv[i],
                None => i == -1,
            }
        },
{
    match min_ready_id(execution) {
        None => None,
        Some(m) => {
            let r = find_semantic_solver_execution_task(execution, m);
            assert(is_min_id(execution.ready_component_ids@, m));
            r
        },
    }
}

} // verus!

verus! {

/// `s` without the occurrences of `id`.
pub open spec fn remove_id(s: Ids, id: usize) -> Ids
    decreases s.len(),
{
    if s.len() == 0 {
        seq![]
    } else {
        let rest = remove_id(s.drop_last(), id);
        if s.last() == id { rest } else { rest.push(s.last()) }
    }
}

/// `s` without the results of component `id`.
pub open spec fn remove_result(s: Seq<ResultView>, id: usize) -> Seq<ResultView>
    decreases s.len(),
{
    if s.len() == 0 {
        seq![]
    } else {
        let rest = remove_result(s.drop_last(), id);
        if s.last().0.0 == id { rest } else { rest.push(s.last()) }
    }
}

/// A task after component `id` completes: it no longer waits for `id`, and is
/// ready once it waits for nothing. Completed tasks and tasks of `id` stay.
pub open spec fn spec_release_task(t: ExecTaskView, id: usize) -> ExecTaskView {
    if t.0 == id || t.1 == SalsaSemanticSolverTaskStateSummary::Completed {
        t
    } else {
        let p = remove_id(t.2, id);
        (t.0, if p.len() == 0 { SalsaSemanticSolverTaskStateSummary::Ready } else { t.1 }, p, t.3, t.4)
    }
}

/// The ready ids after component `id` completes, before sorting: the old ones
/// but `id`, then each task released by it, once.
pub open spec fn spec_ready_accum(tv: Seq<ExecTaskView>, id: usize, base: Ids, n: nat) -> Ids
    decreases n,
{
    if n == 0 || n > tv.len() {
        base
    } else {
        let acc = spec_ready_accum(tv, id, base, (n - 1) as nat);
        let t = tv[n - 1];
        if t.0 == id || t.1 == SalsaSemanticSolverTaskStateSummary::Completed {
            acc
        } else if remove_id(t.2, id).len() == 0 && !acc.contains(t.0) {
            acc.push(t.0)
        } else {
            acc
        }
    }
}

pub open spec fn results_sorted(s: Seq<ResultView>) -> bool {
    forall|i: int, j: int| 0 <= i < j < s.len() ==> s[i].0.0 <= s[j].0.0
}

/// What completing component `id` does to an execution. An id already completed,
/// or without a task, leaves it as it is. Otherwise the task is completed and
/// waits for nothing; the tasks that waited for `id` no longer do, and become
/// ready when they wait for nothing more; `id` leaves the ready ids and joins the
/// completed ones, both kept in increasing order; a given result replaces any
/// earlier result of `id`, the results then sorted by component, stably.
pub open spec fn spec_complete(
    e: SalsaSemanticSolverExecutionSummary,
    id: usize,
    result: Option<ResultView>,
    next: SalsaSemanticSolverExecutionSummary,
) -> bool {
    let tv = exec_task_views(e.tasks@);
    let t = first_exec_task_index(tv, id);
    if e.completed_component_ids@.contains(id) || t == -1 {
        &&& exec_task_views(next.tasks@) == tv
        &&& next.ready_component_ids@ == e.ready_component_ids@
        &&& next.completed_component_ids@ == e.completed_component_ids@
        &&& result_views(next.component_results@) == result_views(e.component_results@)
    } else {
        &&& exec_task_views(next.tasks@) == Seq::new(tv.len(), |k: int|
                if k == t { (id, SalsaSemanticSolverTaskStateSummary::Completed, Seq::<usize>::empty(), tv[k].3, tv[k].4) }
                else { spec_release_task(tv[k], id) })
        &&& sorted_usize(next.ready_component_ids@)
        &&& next.ready_component_ids@.to_multiset()
            == spec_ready_accum(tv, id, remove_id(e.ready_component_ids@, id), tv.len()).to_multiset()
        &&& sorted_usize(next.completed_component_ids@)
        &&& next.completed_component_ids@.to_multiset() == e.completed_component_ids@.push(id).to_multiset()
        &&& match result {
            None => result_views(next.component_results@) == result_views(e.component_results@),
            Some(r) => {
                &&& result_views(next.component_results@) == sort_by_id(
                    remove_result(result_views(e.component_results@), id).push(r),
                )
            },
        }
    }
}

fn contains_id(v: &Vec<usize>, x: usize) -> (r: bool)
    ensures
        r == v@.contains(x),
{
    let mut i: usize = 0;
    while i < v.len()
        invariant
            i <= v@.len(),
            forall|k: int| 0 <= k < i ==> v@[k] != x,
        decreases v@.len() - i,
    {
        if v[i] == x {
            assert(v@[i as int] == x);
            return true;
        }
        i = i + 1;
    }
    false
}

/// `v` without the occurrences of `id`.
pub fn remove_ids(v: &Vec<usize>, id: usize) -> (r: Vec<usize>)
    ensures
        r@ == remove_id(v@, id),
{
    let mut r: Vec<usize> = Vec::new();
    let mut i: usize = 0;
    while i < v.len()
        invariant
            i <= v@.len(),
            r@ == remove_id(v@.take(i as int), id),
        decreases v@.len() - i,
    {
        assert(v@.take(i + 1).drop_last() =~= v@.take(i as int));
        if v[i] != id {
            r.push(v[i]);
        }
        i = i + 1;
    }
    assert(v@.take(i as int) =~= v@);
    r
}

fn clone_results(v: &Vec<SalsaSemanticSolverComponentResultSummary>) -> (r: Vec<SalsaSemanticSolverComponentResultSummary>)
    ensures
        result_views(r@) == result_views(v@),
{
    let mut r: Vec<SalsaSemanticSolverComponentResultSummary> = Vec::new();
    let mut i: usize = 0;
    while i < v.len()
        invariant
            i <= v@.len(),
            r@.len() == i,
            forall|k: int| 0 <= k < i ==> #[trigger] r@[k]@ == v@[k]@,
        decreases v@.len() - i,
    {
        let ghost before = r@;
        r.push(clone_component_result(&v[i]));
        assert forall|k: int| 0 <= k < i implies r@[k] == before[k] by {}
        i = i + 1;
    }
    assert(result_views(r@) =~= result_views(v@));
    r
}

fn clone_execution_tasks(v: &Vec<SalsaSemanticSolverExecutionTaskSummary>) -> (r: Vec<SalsaSemanticSolverExecutionTaskSummary>)
    ensures
        exec_task_views(r@) == exec_task_views(v@),
{
    let mut r: Vec<SalsaSemanticSolverExecutionTaskSummary> = Vec::new();
    let mut i: usize = 0;
    while i < v.len()
        invariant
            i <= v@.len(),
            r@.len() == i,
            forall|k: int| 0 <= k < i ==> #[trigger] r@[k]@ == v@[k]@,
        decreases v@.len() - i,
    {
        let ghost before = r@;
        r.push(clone_execution_task(&v[i]));
        assert forall|k: int| 0 <= k < i implies r@[k] == before[k] by {}
        i = i + 1;
    }
    assert(exec_task_views(r@) =~= exec_task_views(v@));
    r
}

/// A copy of an execution.
pub fn clone_execution(e: &SalsaSemanticSolverExecutionSummary) -> (r: SalsaSemanticSolverExecutionSummary)
    ensures
        exec_task_views(r.tasks@) == exec_task_views(e.tasks@),
        r.ready_component_ids@ == e.ready_component_ids@,
        r.completed_component_ids@ == e.completed_component_ids@,
        result_views(r.component_results@) == result_views(e.component_results@),
{
    SalsaSemanticSolverExecutionSummary {
        tasks: clone_execution_tasks(&e.tasks),
        ready_component_ids: clone_ids(&e.ready_component_ids),
        completed_component_ids: clone_ids(&e.completed_component_ids),
        component_results: clone_results(&e.component_results),
    }
}

/// `v` without the results of component `id`.
fn remove_results(v: &Vec<SalsaSemanticSolverComponentResultSummary>, id: usize) -> (r: Vec<SalsaSemanticSolverComponentResultSummary>)
    ensures
        result_views(r@) == remove_result(result_views(v@), id),
{
    let ghost vv = result_views(v@);
    let mut r: Vec<SalsaSemanticSolverComponentResultSummary> = Vec::new();
    let mut i: usize = 0;
    while i < v.len()
        invariant
            i <= v@.len(),
            vv == result_views(v@),
            result_views(r@) == remove_result(vv.take(i as int), id),
        decreases v@.len() - i,
    {
        assert(vv.take(i + 1).drop_last() =~= vv.take(i as int));
        if v[i].component_id != id {
            let ghost before = r@;
            r.push(clone_component_result(&v[i]));
            assert(result_views(r@) =~= result_views(before).push(vv[i as int]));
        }
        i = i + 1;
    }
    assert(vv.take(i as int) =~= vv);
    r
}

/// `x` placed into `s` before the first result of a later component.
pub open spec fn insert_by_id(s: Seq<ResultView>, x: ResultView) -> Seq<ResultView>
    decreases s.len(),
{
    if s.len() == 0 {
        seq![x]
    } else if s[0].0.0 <= x.0.0 {
        seq![s[0]] + insert_by_id(s.drop_first(), x)
    } else {
        seq![x] + s
    }
}

/// The results sorted by component, stably: each result in turn placed after
/// the results of its own and earlier components.
pub open spec fn sort_by_id(s: Seq<ResultView>) -> Seq<ResultView>
    decreases s.len(),
{
    if s.len() == 0 {
        s
    } else {
        insert_by_id(sort_by_id(s.drop_last()), s.last())
    }
}

proof fn lemma_insert_by_id(s: Seq<ResultView>, x: ResultView, p: int)
    requires
        0 <= p <= s.len(),
        forall|k: int| 0 <= k < p ==> s[k].0.0 <= x.0.0,
        p < s.len() ==> s[p].0.0 > x.0.0,
    ensures
        insert_by_id(s, x) == s.insert(p, x),
    decreases s.len(),
{
    if s.len() == 0 {
        assert(s.insert(p, x) =~= seq![x]);
    } else if p == 0 {
        assert(s.insert(p, x) =~= seq![x] + s);
    } else {
        lemma_insert_by_id(s.drop_first(), x, p - 1);
        assert(s.insert(p, x) =~= seq![s[0]] + s.drop_first().insert(p - 1, x));
    }
}

/// Orders results by component, keeping the order of results of one component.
fn sort_results(v: Vec<SalsaSemanticSolverComponentResultSummary>) -> (r: Vec<SalsaSemanticSolverComponentResultSummary>)
    ensures
        result_views(r@) == sort_by_id(result_views(v@)),
{
    let ghost vv = result_views(v@);
    let mut r: Vec<SalsaSemanticSolverComponentResultSummary> = Vec::new();
    let mut i: usize = 0;
    assert(result_views(r@) =~= sort_by_id(vv.take(0)));
    while i < v.len()
        invariant
            i <= v@.len(),
            vv == result_views(v@),
            result_views(r@) == sort_by_id(vv.take(i as int)),
        decreases v@.len() - i,
    {
        let x = clone_component_result(&v[i]);
        assert(vv[i as int] == x@);
        let mut p: usize = 0;
        while p < r.len() && r[p].component_id <= x.component_id
            invariant
                p <= r@.len(),
                forall|k: int| 0 <= k < p ==> #[trigger] r@[k].component_id <= x.component_id,
            decreases r@.len() - p,
        {
            p = p + 1;
        }
        let ghost rv = result_views(r@);
        let ghost rb = r@;
        proof {
            assert forall|k: int| 0 <= k < p implies rv[k].0.0 <= x@.0.0 by {
                assert(rv[k] == rb[k]@);
            }
            if p < rv.len() {
                assert(rv[p as int] == rb[p as int]@);
            }
            lemma_insert_by_id(rv, x@, p as int);
            assert(vv.take(i + 1).drop_last() =~= vv.take(i as int));
            assert(vv.take(i + 1).last() == x@);
        }
        r.insert(p, x);
        assert(result_views(r@) =~= rv.insert(p as int, x@));
        i = i + 1;
    }
    assert(vv.take(i as int) =~= vv);
    r
}

} // verus!

verus! {

/// Completes component `component_id` in an execution, recording its result
/// when one is given.
pub fn complete_semantic_solver_execution_task_with_result(
    execution: &SalsaSemanticSolverExecutionSummary,
    component_id: usize,
    component_result: Option<SalsaSemanticSolverComponentResultSummary>,
) -> (next: SalsaSemanticSolverExecutionSummary)
    ensures
        spec_complete(*execution, component_id, match component_result { Some(r) => Some(r@), None => None }, next),
{
    let ghost tv = exec_task_views(execution.tasks@);
    if contains_id(&execution.completed_component_ids, component_id) {
        return clone_execution(execution);
    }
    let t = match find_execution_task_index(execution, component_id) {
        None => { return clone_execution(execution); }
        Some(t) => t,
    };
    let mut ready = remove_ids(&execution.ready_component_ids, component_id);
    let ghost base = ready@;
    let mut tasks: Vec<SalsaSemanticSolverExecutionTaskSummary> = Vec::new();
    let mut k: usize = 0;
    while k < execution.tasks.len()
        invariant
            k <= execution.tasks@.len(),
            tv == exec_task_views(execution.tasks@),
            t as int == first_exec_task_index(tv, component_id),
            t < tv.len(),
            tasks@.len() == k,
            forall|j: int| 0 <= j < k ==> #[trigger] tasks@[j]@ ==
                (if j == t { (component_id, SalsaSemanticSolverTaskStateSummary::Completed, Seq::<usize>::empty(), tv[j].3, tv[j].4) }
                else { spec_release_task(tv[j], component_id) }),
            ready@ == spec_ready_accum(tv, component_id, base, k as nat),
        decreases execution.tasks@.len() - k,
    {
        let task = &execution.tasks[k];
        assert(tv[k as int] == task@);
        let ghost before = tasks@;
        if k == t {
            proof { lemma_first_exec_task_index(tv, component_id); }
            tasks.push(SalsaSemanticSolverExecutionTaskSummary {
                component_id: task.component_id,
                state: SalsaSemanticSolverTaskStateSummary::Completed,
                pending_predecessor_component_ids: Vec::new(),
                successor_component_ids: clone_ids(&task.successor_component_ids),
                is_cycle: task.is_cycle,
            });
            assert(tasks@[k as int]@ =~= (component_id, SalsaSemanticSolverTaskStateSummary::Completed,
                Seq::<usize>::empty(), tv[k as int].3, tv[k as int].4));
        } else if task.component_id == component_id || task.state == SalsaSemanticSolverTaskStateSummary::Completed {
            tasks.push(clone_execution_task(task));
        } else {
            let pending = remove_ids(&task.pending_predecessor_component_ids, component_id);
            let state = if pending.len() == 0 { SalsaSemanticSolverTaskStateSummary::Ready } else { task.state };
            if pending.len() == 0 && !contains_id(&ready, task.component_id) {
                ready.push(task.component_id);
            }
            tasks.push(SalsaSemanticSolverExecutionTaskSummary {
                component_id: task.component_id,
                state,
                pending_predecessor_component_ids: pending,
                successor_component_ids: clone_ids(&task.successor_component_ids),
                is_cycle: task.is_cycle,
            });
        }
        assert forall|j: int| 0 <= j < k implies tasks@[j] == before[j] by {}
        k = k + 1;
    }
    let ghost accum = ready@;
    sort_usize(&mut ready);
    let mut completed = clone_ids(&execution.completed_component_ids);
    completed.push(component_id);
    let ghost pushed = completed@;
    sort_usize(&mut completed);
    let results = match component_result {
        None => clone_results(&execution.component_results),
        Some(r) => {
            let mut v = remove_results(&execution.component_results, component_id);
            let ghost vb = v@;
            v.push(r);
            assert(result_views(v@) =~= result_views(vb).push(r@));
            sort_results(v)
        },
    };
    let next = SalsaSemanticSolverExecutionSummary {
        tasks,
        ready_component_ids: ready,
        completed_component_ids: completed,
        component_results: results,
    };
    assert(exec_task_views(next.tasks@) =~= Seq::new(tv.len(), |j: int|
        if j == t { (component_id, SalsaSemanticSolverTaskStateSummary::Completed, Seq::<usize>::empty(), tv[j].3, tv[j].4) }
        else { spec_release_task(tv[j], component_id) }));
    assert(pushed =~= execution.completed_component_ids@.push(component_id));
    next
}

/// Completes component `component_id` in an execution without a result.
pub fn complete_semantic_solver_execution_task(
    execution: &SalsaSemanticSolverExecutionSummary,
    component_id: usize,
) -> (next: SalsaSemanticSolverExecutionSummary)
    ensures
        spec_complete(*execution, component_id, None, next),
{
    complete_semantic_solver_execution_task_with_result(execution, component_id, None)
}

/// Takes one step of an execution without solving: completes the ready
/// component with the least id. None when nothing is ready.
pub fn step_semantic_solver_execution(execution: &SalsaSemanticSolverExecutionSummary) -> (r: Option<SalsaSemanticSolverStepSummary>)
    ensures
        execution.ready_component_ids@.len() == 0 ==> r.is_none(),
        r.is_some() ==> {
            let s = r.unwrap();
            &&& is_min_id(execution.ready_component_ids@, s.completed_component_id)
            &&& first_exec_task_index(exec_task_views(execution.tasks@), s.completed_component_id) >= 0
            &&& s.component_result.is_none()
            &&& spec_complete(*execution, s.completed_component_id, None, s.next_execution)
        },
        (execution.ready_component_ids@.len() > 0 && r.is_none()) ==> exists|m: usize| #[trigger] is_min_id(execution.ready_component_ids@, m)
            && first_exec_task_index(exec_task_views(execution.tasks@), m) == -1,
{
    let task = match find_next_ready_semantic_solver_execution_task(execution) {
        None => { return None; }
        Some(t) => t,
    };
    let ghost tv = exec_task_views(execution.tasks@);
    assert(exists|m: usize| #[trigger] is_min_id(execution.ready_component_ids@, m) && {
        let i = first_exec_task_index(tv, m);
        i >= 0 && task@ == tv[i]
    });
    proof {
        let m = choose|m: usize| #[trigger] is_min_id(execution.ready_component_ids@, m) && {
            let i = first_exec_task_index(tv, m);
            i >= 0 && task@ == tv[i]
        };
        lemma_first_exec_task_index(tv, m);
        assert(task.component_id == m);
    }
    Some(SalsaSemanticSolverStepSummary {
        completed_component_id: task.component_id,
        component_result: None,
        next_execution: complete_semantic_solver_execution_task(execution, task.component_id),
    })
}

} // verus!

verus! {

pub proof fn lemma_remove_id_excludes(s: Ids, id: usize)
    ensures
        !remove_id(s, id).contains(id),
        forall|x: usize| x != id ==> (remove_id(s, id).contains(x) <==> s.contains(x)),
    decreases s.len(),
{
    if s.len() > 0 {
        lemma_remove_id_excludes(s.drop_last(), id);
        let rest = remove_id(s.drop_last(), id);
        assert forall|x: usize| x != id implies (remove_id(s, id).contains(x) <==> s.contains(x)) by {
            assert(rest.contains(x) <==> s.drop_last().contains(x));
            if s.contains(x) {
                let k = choose|k: int| 0 <= k < s.len() && s[k] == x;
                if k < s.len() - 1 {
                    assert(s.drop_last()[k] == x);
                    let j = choose|j: int| 0 <= j < rest.len() && rest[j] == x;
                    assert(remove_id(s, id)[j] == x);
                } else {
                    assert(remove_id(s, id) == rest.push(x));
                    assert(remove_id(s, id)[rest.len() as int] == x);
                }
            }
            if remove_id(s, id).contains(x) {
                let k = choose|k: int| 0 <= k < remove_id(s, id).len() && remove_id(s, id)[k] == x;
                if k < rest.len() {
                    assert(rest[k] == x);
                    let j = choose|j: int| 0 <= j < s.drop_last().len() && s.drop_last()[j] == x;
                    assert(s[j] == x);
                } else {
                    assert(s[s.len() - 1] == x);
                }
            }
        }
        if remove_id(s, id).contains(id) {
            let k = choose|k: int| 0 <= k < remove_id(s, id).len() && remove_id(s, id)[k] == id;
            if k < rest.len() {
                assert(rest[k] == id);
            }
        }
    }
}

pub proof fn lemma_ready_accum_excludes(tv: Seq<ExecTaskView>, id: usize, base: Ids, n: nat)
    requires
        !base.contains(id),
    ensures
        !spec_ready_accum(tv, id, base, n).contains(id),
    decreases n,
{
    if n > 0 && n <= tv.len() {
        lemma_ready_accum_excludes(tv, id, base, (n - 1) as nat);
        let acc = spec_ready_accum(tv, id, base, (n - 1) as nat);
        let t = tv[n - 1];
        if !(t.0 == id || t.1 == SalsaSemanticSolverTaskStateSummary::Completed)
            && remove_id(t.2, id).len() == 0 && !acc.contains(t.0) {
            assert forall|k: int| 0 <= k < acc.push(t.0).len() implies acc.push(t.0)[k] != id by {
                if k < acc.len() { assert(acc.push(t.0)[k] == acc[k]); }
            }
        }
    }
}

/// Once component `id` has been completed, its task is completed and waits for
/// nothing, `id` is among the completed ids and no longer among the ready ones.
pub proof fn law_complete_marks_completed(
    e: SalsaSemanticSolverExecutionSummary,
    id: usize,
    result: Option<ResultView>,
    next: SalsaSemanticSolverExecutionSummary,
)
    requires
        spec_complete(e, id, result, next),
        !e.completed_component_ids@.contains(id),
        first_exec_task_index(exec_task_views(e.tasks@), id) >= 0,
    ensures
        ({
            let t = first_exec_task_index(exec_task_views(e.tasks@), id);
            &&& next.tasks@[t].state == SalsaSemanticSolverTaskStateSummary::Completed
            &&& next.tasks@[t].pending_predecessor_component_ids@.len() == 0
        }),
        next.completed_component_ids@.contains(id),
        !next.ready_component_ids@.contains(id),
{
    broadcast use vstd::seq_lib::group_to_multiset_ensures;
    broadcast use vstd::multiset::group_multiset_axioms;
    let tv = exec_task_views(e.tasks@);
    let t = first_exec_task_index(tv, id);
    lemma_first_exec_task_index(tv, id);
    assert(exec_task_views(next.tasks@).len() == next.tasks@.len());
    assert(exec_task_views(next.tasks@).len() == tv.len());
    assert(exec_task_views(next.tasks@)[t] == next.tasks@[t]@);
    assert(e.completed_component_ids@.push(id).to_multiset().count(id) > 0);
    assert(next.completed_component_ids@.to_multiset().count(id) > 0);
    lemma_remove_id_excludes(e.ready_component_ids@, id);
    lemma_ready_accum_excludes(tv, id, remove_id(e.ready_component_ids@, id), tv.len());
    let acc = spec_ready_accum(tv, id, remove_id(e.ready_component_ids@, id), tv.len());
    assert(acc.to_multiset().count(id) == 0);
    assert(next.ready_component_ids@.to_multiset().count(id) == 0);
}

/// Completing a component twice is completing it once: the second completion
/// leaves the execution as the first left it.
pub proof fn law_complete_idempotent(
    e: SalsaSemanticSolverExecutionSummary,
    id: usize,
    r1: Option<ResultView>,
    r2: Option<ResultView>,
    n1: SalsaSemanticSolverExecutionSummary,
    n2: SalsaSemanticSolverExecutionSummary,
)
    requires
        spec_complete(e, id, r1, n1),
        spec_complete(n1, id, r2, n2),
    ensures
        exec_task_views(n2.tasks@) == exec_task_views(n1.tasks@),
        n2.ready_component_ids@ == n1.ready_component_ids@,
        n2.completed_component_ids@ == n1.completed_component_ids@,
        result_views(n2.component_results@) == result_views(n1.component_results@),
{
    broadcast use vstd::seq_lib::group_to_multiset_ensures;
    broadcast use vstd::multiset::group_multiset_axioms;
    let tv = exec_task_views(e.tasks@);
    let t = first_exec_task_index(tv, id);
    if e.completed_component_ids@.contains(id) || t == -1 {
        assert(exec_task_views(n1.tasks@) == tv);
    } else {
        assert(e.completed_component_ids@.push(id).to_multiset().count(id) > 0);
        assert(n1.completed_component_ids@.to_multiset().count(id) > 0);
        assert(n1.completed_component_ids@.contains(id));
    }
}

/// Two sorted lists of ids with the same elements, counted, are the same list.
pub proof fn lemma_sorted_same_multiset(a: Seq<usize>, b: Seq<usize>)
    requires
        sorted_usize(a),
        sorted_usize(b),
        a.to_multiset() == b.to_multiset(),
    ensures
        a == b,
    decreases a.len(),
{
    broadcast use vstd::seq_lib::group_to_multiset_ensures;
    broadcast use vstd::multiset::group_multiset_axioms;
    assert(a.len() == b.len()) by {
        vstd::seq_lib::to_multiset_len(a);
        vstd::seq_lib::to_multiset_len(b);
    }
    if a.len() > 0 {
        let x = a.last();
        let y = b.last();
        assert(a.to_multiset().count(x) > 0);
        assert(b.to_multiset().count(x) > 0);
        assert(b.contains(x));
        let i = choose|i: int| 0 <= i < b.len() && b[i] == x;
        assert(x <= y);
        assert(b.to_multiset().count(y) > 0);
        assert(a.to_multiset().count(y) > 0);
        assert(a.contains(y));
        let j = choose|j: int| 0 <= j < a.len() && a[j] == y;
        assert(y <= x);
        assert(a =~= a.drop_last().push(x));
        assert(b =~= b.drop_last().push(y));
        assert(a.drop_last().to_multiset() =~= a.to_multiset().remove(x));
        assert(b.drop_last().to_multiset() =~= b.to_multiset().remove(y));
        lemma_sorted_same_multiset(a.drop_last(), b.drop_last());
    } else {
        assert(a =~= b);
    }
}

/// Completing a component is deterministic: two executions that both complete
/// component `id` of `e` with the same result are the same execution.
pub proof fn law_complete_deterministic(
    e: SalsaSemanticSolverExecutionSummary,
    id: usize,
    result: Option<ResultView>,
    n1: SalsaSemanticSolverExecutionSummary,
    n2: SalsaSemanticSolverExecutionSummary,
)
    requires
        spec_complete(e, id, result, n1),
        spec_complete(e, id, result, n2),
    ensures
        exec_task_views(n1.tasks@) == exec_task_views(n2.tasks@),
        n1.ready_component_ids@ == n2.ready_component_ids@,
        n1.completed_component_ids@ == n2.completed_component_ids@,
        result_views(n1.component_results@) == result_views(n2.component_results@),
{
    let tv = exec_task_views(e.tasks@);
    let t = first_exec_task_index(tv, id);
    if !(e.completed_component_ids@.contains(id) || t == -1) {
        lemma_sorted_same_multiset(n1.ready_component_ids@, n2.ready_component_ids@);
        lemma_sorted_same_multiset(n1.completed_component_ids@, n2.completed_component_ids@);
    }
}

} // verus!
