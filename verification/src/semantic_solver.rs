//! Solving the semantic graph: each value gets a shell (how well its type is
//! resolved and which doc types it may have); components are solved in
//! dependency order, cycles to a fixed point.
use vstd::prelude::*;

use crate::offsets::{strictly_sorted, insert_all_sorted_unique, sorted_unique, lemma_sorted_unique_eq};

verus! {

/// How well a value's type is resolved.
#[derive(Clone, Copy, Debug, PartialEq, Eq, Structural)]
pub enum SalsaSemanticResolveStateSummary {
    Unknown,
    Partial,
    Resolved,
    RecursiveDependency,
}

/// How well the return values of a signature are resolved.
#[derive(Clone, Copy, Debug, PartialEq, Eq, Structural)]
pub enum SalsaSignatureReturnResolveStateSummary {
    Resolved,
    Partial,
    RecursiveDependency,
}

/// How well the iteration variables of a `for ... in` loop are resolved.
#[derive(Clone, Copy, Debug, PartialEq, Eq, Structural)]
pub enum SalsaForRangeIterResolveStateSummary {
    Resolved,
    Partial,
    RecursiveDependency,
}

/// How well the module's returned value is resolved.
#[derive(Clone, Copy, Debug, PartialEq, Eq, Structural)]
pub enum SalsaModuleExportResolveStateSummary {
    Resolved,
    Partial,
    RecursiveDependency,
}

/// What the solver knows of a value: its resolve state and the doc types it may
/// have, increasing and without repeats.
#[derive(Clone, Debug)]
pub struct SalsaSemanticValueShellSummary {
    pub state: SalsaSemanticResolveStateSummary,
    pub candidate_type_offsets: Vec<u32>,
}

impl View for SalsaSemanticValueShellSummary {
    type V = (SalsaSemanticResolveStateSummary, Seq<u32>);

    open spec fn view(&self) -> (SalsaSemanticResolveStateSummary, Seq<u32>) {
        (self.state, self.candidate_type_offsets@)
    }
}

pub open spec fn shell_views(shells: Seq<SalsaSemanticValueShellSummary>) -> Seq<(SalsaSemanticResolveStateSummary, Seq<u32>)> {
    shells.map_values(|s: SalsaSemanticValueShellSummary| s@)
}

pub open spec fn shell_states(shells: Seq<(SalsaSemanticResolveStateSummary, Seq<u32>)>) -> Seq<SalsaSemanticResolveStateSummary> {
    shells.map_values(|s: (SalsaSemanticResolveStateSummary, Seq<u32>)| s.0)
}

/// The strongest state among `states`: a recursive dependency over anything
/// resolved, resolved over partial, partial over unknown.
pub open spec fn spec_strongest_state(states: Seq<SalsaSemanticResolveStateSummary>) -> SalsaSemanticResolveStateSummary {
    if exists|i: int| 0 <= i < states.len() && states[i] == SalsaSemanticResolveStateSummary::RecursiveDependency {
        SalsaSemanticResolveStateSummary::RecursiveDependency
    } else if exists|i: int| 0 <= i < states.len() && states[i] == SalsaSemanticResolveStateSummary::Resolved {
        SalsaSemanticResolveStateSummary::Resolved
    } else if exists|i: int| 0 <= i < states.len() && states[i] == SalsaSemanticResolveStateSummary::Partial {
        SalsaSemanticResolveStateSummary::Partial
    } else {
        SalsaSemanticResolveStateSummary::Unknown
    }
}

/// The state of several sources joined: unknown without sources; a recursive
/// dependency if any has one; resolved only if all are; partial if some are
/// resolved or partial.
pub open spec fn spec_join_states(states: Seq<SalsaSemanticResolveStateSummary>) -> SalsaSemanticResolveStateSummary {
    if states.len() == 0 {
        SalsaSemanticResolveStateSummary::Unknown
    } else if exists|i: int| 0 <= i < states.len() && states[i] == SalsaSemanticResolveStateSummary::RecursiveDependency {
        SalsaSemanticResolveStateSummary::RecursiveDependency
    } else if forall|i: int| 0 <= i < states.len() ==> states[i] == SalsaSemanticResolveStateSummary::Resolved {
        SalsaSemanticResolveStateSummary::Resolved
    } else if exists|i: int| 0 <= i < states.len()
        && (states[i] == SalsaSemanticResolveStateSummary::Resolved || states[i] == SalsaSemanticResolveStateSummary::Partial) {
        SalsaSemanticResolveStateSummary::Partial
    } else {
        SalsaSemanticResolveStateSummary::Unknown
    }
}

/// Some shell among `shells` has `x` as a candidate.
pub open spec fn spec_some_candidate(shells: Seq<(SalsaSemanticResolveStateSummary, Seq<u32>)>, x: u32) -> bool {
    exists|i: int| 0 <= i < shells.len() && shells[i].1.contains(x)
}

/// `offs` holds the candidates of all `shells`, increasing and without repeats.
pub open spec fn spec_is_candidate_union(shells: Seq<(SalsaSemanticResolveStateSummary, Seq<u32>)>, offs: Seq<u32>) -> bool {
    &&& strictly_sorted(offs)
    &&& forall|x: u32| offs.contains(x) <==> spec_some_candidate(shells, x)
}

/// Collects the candidates of all `shells`, increasing and without repeats.
fn union_candidates(shells: &Vec<SalsaSemanticValueShellSummary>) -> (r: Vec<u32>)
    ensures
        spec_is_candidate_union(shell_views(shells@), r@),
{
    let mut r: Vec<u32> = Vec::new();
    let mut i: usize = 0;
    while i < shells.len()
        invariant
            i <= shells@.len(),
            strictly_sorted(r@),
            forall|x: u32| r@.contains(x) <==> spec_some_candidate(shell_views(shells@.take(i as int)), x),
        decreases shells@.len() - i,
    {
        insert_all_sorted_unique(&mut r, &shells[i].candidate_type_offsets);
        proof {
            let before = shell_views(shells@.take(i as int));
            let after = shell_views(shells@.take(i + 1));
            assert forall|x: u32| r@.contains(x) <==> spec_some_candidate(after, x) by {
                if spec_some_candidate(before, x) {
                    let k = choose|k: int| 0 <= k < before.len() && before[k].1.contains(x);
                    assert(after[k] == before[k]);
                }
                if spec_some_candidate(after, x) {
                    let k = choose|k: int| 0 <= k < after.len() && after[k].1.contains(x);
                    if k < i {
                        assert(after[k] == before[k]);
                    } else {
                        assert(after[k].1 == shells@[i as int].candidate_type_offsets@);
                    }
                }
                if shells@[i as int].candidate_type_offsets@.contains(x) {
                    assert(after[i as int].1 == shells@[i as int].candidate_type_offsets@);
                }
            }
        }
        i = i + 1;
    }
    assert(shells@.take(i as int) =~= shells@);
    r
}

/// The strongest state among the shells.
fn strongest_state(shells: &Vec<SalsaSemanticValueShellSummary>) -> (r: SalsaSemanticResolveStateSummary)
    ensures
        r == spec_strongest_state(shell_states(shell_views(shells@))),
{
    let ghost states = shell_states(shell_views(shells@));
    let mut has_recursive = false;
    let mut has_resolved = false;
    let mut has_partial = false;
    let mut i: usize = 0;
    while i < shells.len()
        invariant
            i <= shells@.len(),
            states == shell_states(shell_views(shells@)),
            states.len() == shells@.len(),
            has_recursive == exists|k: int| 0 <= k < i && states[k] == SalsaSemanticResolveStateSummary::RecursiveDependency,
            has_resolved == exists|k: int| 0 <= k < i && states[k] == SalsaSemanticResolveStateSummary::Resolved,
            has_partial == exists|k: int| 0 <= k < i && states[k] == SalsaSemanticResolveStateSummary::Partial,
        decreases shells@.len() - i,
    {
        let s = shells[i].state;
        assert(states[i as int] == s);
        match s {
            SalsaSemanticResolveStateSummary::RecursiveDependency => { has_recursive = true; },
            SalsaSemanticResolveStateSummary::Resolved => { has_resolved = true; },
            SalsaSemanticResolveStateSummary::Partial => { has_partial = true; },
            SalsaSemanticResolveStateSummary::Unknown => {},
        }
        i = i + 1;
    }
    if has_recursive {
        SalsaSemanticResolveStateSummary::RecursiveDependency
    } else if has_resolved {
        SalsaSemanticResolveStateSummary::Resolved
    } else if has_partial {
        SalsaSemanticResolveStateSummary::Partial
    } else {
        SalsaSemanticResolveStateSummary::Unknown
    }
}

/// Merges shells within the solver: all their candidates, and the strongest of
/// their states.
pub fn merge_solver_value_shells(shells: &Vec<SalsaSemanticValueShellSummary>) -> (r: SalsaSemanticValueShellSummary)
    ensures
        r.state == spec_strongest_state(shell_states(shell_views(shells@))),
        spec_is_candidate_union(shell_views(shells@), r.candidate_type_offsets@),
{
    SalsaSemanticValueShellSummary {
        state: strongest_state(shells),
        candidate_type_offsets: union_candidates(shells),
    }
}

/// Joins the states of several sources.
pub fn join_semantic_resolve_states(states: &Vec<SalsaSemanticResolveStateSummary>) -> (r: SalsaSemanticResolveStateSummary)
    ensures
        r == spec_join_states(states@),
{
    if states.len() == 0 {
        return SalsaSemanticResolveStateSummary::Unknown;
    }
    let mut has_recursive = false;
    let mut all_resolved = true;
    let mut has_resolved_or_partial = false;
    let mut i: usize = 0;
    while i < states.len()
        invariant
            i <= states@.len(),
            has_recursive == exists|k: int| 0 <= k < i && states@[k] == SalsaSemanticResolveStateSummary::RecursiveDependency,
            all_resolved == forall|k: int| 0 <= k < i ==> states@[k] == SalsaSemanticResolveStateSummary::Resolved,
            has_resolved_or_partial == exists|k: int| 0 <= k < i
                && (states@[k] == SalsaSemanticResolveStateSummary::Resolved || states@[k] == SalsaSemanticResolveStateSummary::Partial),
        decreases states@.len() - i,
    {
        let s = states[i];
        if s == SalsaSemanticResolveStateSummary::RecursiveDependency {
            has_recursive = true;
        }
        if s != SalsaSemanticResolveStateSummary::Resolved {
            all_resolved = false;
        }
        if s == SalsaSemanticResolveStateSummary::Resolved || s == SalsaSemanticResolveStateSummary::Partial {
            has_resolved_or_partial = true;
        }
        i = i + 1;
    }
    if has_recursive {
        SalsaSemanticResolveStateSummary::RecursiveDependency
    } else if all_resolved {
        SalsaSemanticResolveStateSummary::Resolved
    } else if has_resolved_or_partial {
        SalsaSemanticResolveStateSummary::Partial
    } else {
        SalsaSemanticResolveStateSummary::Unknown
    }
}

/// Merges shells: all their candidates, and their states joined.
pub fn merge_semantic_value_shells(shells: &Vec<SalsaSemanticValueShellSummary>) -> (r: SalsaSemanticValueShellSummary)
    ensures
        r.state == spec_join_states(shell_states(shell_views(shells@))),
        spec_is_candidate_union(shell_views(shells@), r.candidate_type_offsets@),
{
    let mut states: Vec<SalsaSemanticResolveStateSummary> = Vec::new();
    let mut i: usize = 0;
    while i < shells.len()
        invariant
            i <= shells@.len(),
            states@ =~= shell_states(shell_views(shells@)).take(i as int),
        decreases shells@.len() - i,
    {
        states.push(shells[i].state);
        i = i + 1;
    }
    assert(states@ =~= shell_states(shell_views(shells@)));
    SalsaSemanticValueShellSummary {
        state: join_semantic_resolve_states(&states),
        candidate_type_offsets: union_candidates(shells),
    }
}

pub open spec fn spec_semantic_from_signature_return(s: SalsaSignatureReturnResolveStateSummary) -> SalsaSemanticResolveStateSummary {
    match s {
        SalsaSignatureReturnResolveStateSummary::Resolved => SalsaSemanticResolveStateSummary::Resolved,
        SalsaSignatureReturnResolveStateSummary::Partial => SalsaSemanticResolveStateSummary::Partial,
        SalsaSignatureReturnResolveStateSummary::RecursiveDependency => SalsaSemanticResolveStateSummary::RecursiveDependency,
    }
}

pub open spec fn spec_signature_return_from_semantic(s: SalsaSemanticResolveStateSummary) -> Option<SalsaSignatureReturnResolveStateSummary> {
    match s {
        SalsaSemanticResolveStateSummary::Resolved => Some(SalsaSignatureReturnResolveStateSummary::Resolved),
        SalsaSemanticResolveStateSummary::Partial => Some(SalsaSignatureReturnResolveStateSummary::Partial),
        SalsaSemanticResolveStateSummary::RecursiveDependency => Some(SalsaSignatureReturnResolveStateSummary::RecursiveDependency),
        SalsaSemanticResolveStateSummary::Unknown => None,
    }
}

pub open spec fn spec_semantic_from_for_range_iter(s: SalsaForRangeIterResolveStateSummary) -> SalsaSemanticResolveStateSummary {
    match s {
        SalsaForRangeIterResolveStateSummary::Resolved => SalsaSemanticResolveStateSummary::Resolved,
        SalsaForRangeIterResolveStateSummary::Partial => SalsaSemanticResolveStateSummary::Partial,
        SalsaForRangeIterResolveStateSummary::RecursiveDependency => SalsaSemanticResolveStateSummary::RecursiveDependency,
    }
}

pub open spec fn spec_for_range_iter_from_semantic(s: SalsaSemanticResolveStateSummary) -> Option<SalsaForRangeIterResolveStateSummary> {
    match s {
        SalsaSemanticResolveStateSummary::Resolved => Some(SalsaForRangeIterResolveStateSummary::Resolved),
        SalsaSemanticResolveStateSummary::Partial => Some(SalsaForRangeIterResolveStateSummary::Partial),
        SalsaSemanticResolveStateSummary::RecursiveDependency => Some(SalsaForRangeIterResolveStateSummary::RecursiveDependency),
        SalsaSemanticResolveStateSummary::Unknown => None,
    }
}

pub open spec fn spec_module_export_from_semantic(s: SalsaSemanticResolveStateSummary) -> Option<SalsaModuleExportResolveStateSummary> {
    match s {
        SalsaSemanticResolveStateSummary::Resolved => Some(SalsaModuleExportResolveStateSummary::Resolved),
        SalsaSemanticResolveStateSummary::Partial => Some(SalsaModuleExportResolveStateSummary::Partial),
        SalsaSemanticResolveStateSummary::RecursiveDependency => Some(SalsaModuleExportResolveStateSummary::RecursiveDependency),
        SalsaSemanticResolveStateSummary::Unknown => None,
    }
}

/// The semantic state of a signature's return state.
pub fn semantic_resolve_state_from_signature_return(state: SalsaSignatureReturnResolveStateSummary) -> (r: SalsaSemanticResolveStateSummary)
    ensures
        r == spec_semantic_from_signature_return(state),
{
    match state {
        SalsaSignatureReturnResolveStateSummary::Resolved => SalsaSemanticResolveStateSummary::Resolved,
        SalsaSignatureReturnResolveStateSummary::Partial => SalsaSemanticResolveStateSummary::Partial,
        SalsaSignatureReturnResolveStateSummary::RecursiveDependency => SalsaSemanticResolveStateSummary::RecursiveDependency,
    }
}

/// The signature return state of a semantic state; none for an unknown one.
pub fn signature_return_resolve_state_from_semantic(state: SalsaSemanticResolveStateSummary) -> (r: Option<SalsaSignatureReturnResolveStateSummary>)
    ensures
        r == spec_signature_return_from_semantic(state),
{
    match state {
        SalsaSemanticResolveStateSummary::Resolved => Some(SalsaSignatureReturnResolveStateSummary::Resolved),
        SalsaSemanticResolveStateSummary::Partial => Some(SalsaSignatureReturnResolveStateSummary::Partial),
        SalsaSemanticResolveStateSummary::RecursiveDependency => Some(SalsaSignatureReturnResolveStateSummary::RecursiveDependency),
        SalsaSemanticResolveStateSummary::Unknown => None,
    }
}

/// The semantic state of a `for ... in` loop's state.
pub fn semantic_resolve_state_from_for_range_iter(state: SalsaForRangeIterResolveStateSummary) -> (r: SalsaSemanticResolveStateSummary)
    ensures
        r == spec_semantic_from_for_range_iter(state),
{
    match state {
        SalsaForRangeIterResolveStateSummary::Resolved => SalsaSemanticResolveStateSummary::Resolved,
        SalsaForRangeIterResolveStateSummary::Partial => SalsaSemanticResolveStateSummary::Partial,
        SalsaForRangeIterResolveStateSummary::RecursiveDependency => SalsaSemanticResolveStateSummary::RecursiveDependency,
    }
}

/// The `for ... in` loop state of a semantic state; none for an unknown one.
pub fn for_range_iter_resolve_state_from_semantic(state: SalsaSemanticResolveStateSummary) -> (r: Option<SalsaForRangeIterResolveStateSummary>)
    ensures
        r == spec_for_range_iter_from_semantic(state),
{
    match state {
        SalsaSemanticResolveStateSummary::Resolved => Some(SalsaForRangeIterResolveStateSummary::Resolved),
        SalsaSemanticResolveStateSummary::Partial => Some(SalsaForRangeIterResolveStateSummary::Partial),
        SalsaSemanticResolveStateSummary::RecursiveDependency => Some(SalsaForRangeIterResolveStateSummary::RecursiveDependency),
        SalsaSemanticResolveStateSummary::Unknown => None,
    }
}

/// The module export state of a semantic state; none for an unknown one.
pub fn module_export_resolve_state_from_semantic(state: SalsaSemanticResolveStateSummary) -> (r: Option<SalsaModuleExportResolveStateSummary>)
    ensures
        r == spec_module_export_from_semantic(state),
{
    match state {
        SalsaSemanticResolveStateSummary::Resolved => Some(SalsaModuleExportResolveStateSummary::Resolved),
        SalsaSemanticResolveStateSummary::Partial => Some(SalsaModuleExportResolveStateSummary::Partial),
        SalsaSemanticResolveStateSummary::RecursiveDependency => Some(SalsaModuleExportResolveStateSummary::RecursiveDependency),
        SalsaSemanticResolveStateSummary::Unknown => None,
    }
}

/// Converting a signature return state to a semantic state and back gives it back.
pub proof fn law_signature_return_state_round_trip(state: SalsaSignatureReturnResolveStateSummary)
    ensures
        spec_signature_return_from_semantic(spec_semantic_from_signature_return(state)) == Some(state),
{
}

/// Converting a `for ... in` loop state to a semantic state and back gives it back.
pub proof fn law_for_range_iter_state_round_trip(state: SalsaForRangeIterResolveStateSummary)
    ensures
        spec_for_range_iter_from_semantic(spec_semantic_from_for_range_iter(state)) == Some(state),
{
}

/// A semantic state other than unknown survives the trip to a signature return
/// state and back; unknown has no signature return state.
pub proof fn law_semantic_state_round_trip(state: SalsaSemanticResolveStateSummary)
    ensures
        state == SalsaSemanticResolveStateSummary::Unknown <==> spec_signature_return_from_semantic(state).is_none(),
        state != SalsaSemanticResolveStateSummary::Unknown ==>
            spec_semantic_from_signature_return(spec_signature_return_from_semantic(state).unwrap()) == state,
        state != SalsaSemanticResolveStateSummary::Unknown ==>
            spec_semantic_from_for_range_iter(spec_for_range_iter_from_semantic(state).unwrap()) == state,
{
}

} // verus!

verus! {

pub open spec fn unknown_view() -> (SalsaSemanticResolveStateSummary, Seq<u32>) {
    (SalsaSemanticResolveStateSummary::Unknown, Seq::<u32>::empty())
}

/// What a shell passes on: a partial shell without candidates passes on nothing
/// known.
pub open spec fn spec_transfer_state(st: SalsaSemanticResolveStateSummary, offs: Seq<u32>) -> SalsaSemanticResolveStateSummary {
    if st == SalsaSemanticResolveStateSummary::Partial && offs.len() == 0 {
        SalsaSemanticResolveStateSummary::Unknown
    } else {
        st
    }
}

pub open spec fn spec_transfer(s: (SalsaSemanticResolveStateSummary, Seq<u32>)) -> (SalsaSemanticResolveStateSummary, Seq<u32>) {
    (spec_transfer_state(s.0, s.1), s.1)
}

/// The shell that a shell contributes, when it contributes anything.
pub open spec fn spec_effective(s: (SalsaSemanticResolveStateSummary, Seq<u32>)) -> Option<(SalsaSemanticResolveStateSummary, Seq<u32>)> {
    let t = spec_transfer(s);
    if t.0 == SalsaSemanticResolveStateSummary::Unknown && t.1.len() == 0 { None } else { Some(t) }
}

pub open spec fn spec_propagated(input: (SalsaSemanticResolveStateSummary, Seq<u32>), has_input: bool) -> (SalsaSemanticResolveStateSummary, Seq<u32>) {
    if !has_input {
        unknown_view()
    } else {
        match spec_effective(input) {
            Some(t) => t,
            None => unknown_view(),
        }
    }
}

pub open spec fn opt_view(o: Option<SalsaSemanticValueShellSummary>) -> Option<(SalsaSemanticResolveStateSummary, Seq<u32>)> {
    match o {
        Some(s) => Some(s@),
        None => None,
    }
}

pub open spec fn opt_ref_view(o: Option<&SalsaSemanticValueShellSummary>) -> Option<(SalsaSemanticResolveStateSummary, Seq<u32>)> {
    match o {
        Some(s) => Some(s@),
        None => None,
    }
}

pub open spec fn opt_seq(o: Option<(SalsaSemanticResolveStateSummary, Seq<u32>)>) -> Seq<(SalsaSemanticResolveStateSummary, Seq<u32>)> {
    match o {
        Some(x) => seq![x],
        None => seq![],
    }
}

/// `r` is one transfer step of a component: the contributions of the propagated
/// input, the local shell and the current shell merged, then transferred.
pub open spec fn spec_step(
    propagated: (SalsaSemanticResolveStateSummary, Seq<u32>),
    local: (SalsaSemanticResolveStateSummary, Seq<u32>),
    current: Option<(SalsaSemanticResolveStateSummary, Seq<u32>)>,
    r: (SalsaSemanticResolveStateSummary, Seq<u32>),
) -> bool {
    let list = opt_seq(spec_effective(propagated)) + opt_seq(spec_effective(local))
        + opt_seq(match current { Some(c) => spec_effective(c), None => None });
    &&& spec_is_candidate_union(list, r.1)
    &&& r.0 == spec_transfer_state(spec_strongest_state(shell_states(list)), r.1)
}

fn clone_offsets(v: &Vec<u32>) -> (r: Vec<u32>)
    ensures
        r@ == v@,
{
    let mut r: Vec<u32> = Vec::new();
    let mut i: usize = 0;
    while i < v.len()
        invariant
            i <= v@.len(),
            r@ =~= v@.take(i as int),
        decreases v@.len() - i,
    {
        r.push(v[i]);
        i = i + 1;
    }
    assert(v@.take(i as int) =~= v@);
    r
}

/// A copy of a shell.
pub fn clone_shell(s: &SalsaSemanticValueShellSummary) -> (r: SalsaSemanticValueShellSummary)
    ensures
        r@ == s@,
{
    SalsaSemanticValueShellSummary { state: s.state, candidate_type_offsets: clone_offsets(&s.candidate_type_offsets) }
}

fn unknown_shell() -> (r: SalsaSemanticValueShellSummary)
    ensures
        r@ == unknown_view(),
{
    let r = SalsaSemanticValueShellSummary { state: SalsaSemanticResolveStateSummary::Unknown, candidate_type_offsets: Vec::new() };
    assert(r@ =~= unknown_view());
    r
}

/// Whether two shells are the same.
pub fn shells_equal(a: &SalsaSemanticValueShellSummary, b: &SalsaSemanticValueShellSummary) -> (r: bool)
    ensures
        r == (a@ == b@),
{
    if a.state != b.state || a.candidate_type_offsets.len() != b.candidate_type_offsets.len() {
        return false;
    }
    let mut i: usize = 0;
    while i < a.candidate_type_offsets.len()
        invariant
            i <= a.candidate_type_offsets@.len(),
            a.candidate_type_offsets@.len() == b.candidate_type_offsets@.len(),
            forall|k: int| 0 <= k < i ==> a.candidate_type_offsets@[k] == b.candidate_type_offsets@[k],
        decreases a.candidate_type_offsets@.len() - i,
    {
        if a.candidate_type_offsets[i] != b.candidate_type_offsets[i] {
            return false;
        }
        i = i + 1;
    }
    assert(a.candidate_type_offsets@ =~= b.candidate_type_offsets@);
    true
}

/// The shell a shell passes on: a partial shell without candidates becomes unknown.
pub fn build_transfer_value_shell(shell: &SalsaSemanticValueShellSummary) -> (r: SalsaSemanticValueShellSummary)
    ensures
        r@ == spec_transfer(shell@),
{
    if shell.state == SalsaSemanticResolveStateSummary::Partial && shell.candidate_type_offsets.len() == 0 {
        let r = unknown_shell();
        assert(r@ =~= spec_transfer(shell@));
        r
    } else {
        clone_shell(shell)
    }
}

/// The shell a shell contributes: none when it passes on nothing known.
pub fn build_effective_transfer_shell(shell: &SalsaSemanticValueShellSummary) -> (r: Option<SalsaSemanticValueShellSummary>)
    ensures
        opt_view(r) == spec_effective(shell@),
{
    let t = build_transfer_value_shell(shell);
    if t.state != SalsaSemanticResolveStateSummary::Unknown || t.candidate_type_offsets.len() > 0 {
        Some(t)
    } else {
        None
    }
}

/// The shell a component receives from its predecessors: unknown without any.
pub fn build_propagated_value_shell(input_value_shell: &SalsaSemanticValueShellSummary, has_input: bool) -> (r: SalsaSemanticValueShellSummary)
    ensures
        r@ == spec_propagated(input_value_shell@, has_input),
{
    if !has_input {
        return unknown_shell();
    }
    match build_effective_transfer_shell(input_value_shell) {
        Some(t) => t,
        None => unknown_shell(),
    }
}

/// Merges the shells of one iteration over a component.
pub fn merge_component_iteration_shells(
    input: Option<SalsaSemanticValueShellSummary>,
    local: Option<SalsaSemanticValueShellSummary>,
    current: Option<SalsaSemanticValueShellSummary>,
) -> (r: SalsaSemanticValueShellSummary)
    ensures
        ({
            let list = opt_seq(opt_view(input))
                + opt_seq(opt_view(local))
                + opt_seq(opt_view(current));
            &&& r.state == spec_strongest_state(shell_states(list))
            &&& spec_is_candidate_union(list, r.candidate_type_offsets@)
        }),
{
    let ghost list = opt_seq(opt_view(input))
        + opt_seq(opt_view(local))
        + opt_seq(opt_view(current));
    let mut shells: Vec<SalsaSemanticValueShellSummary> = Vec::new();
    if let Some(s) = input { shells.push(s); }
    if let Some(s) = local { shells.push(s); }
    if let Some(s) = current { shells.push(s); }
    assert(shell_views(shells@) =~= list);
    merge_solver_value_shells(&shells)
}

/// One transfer step of a component.
pub fn apply_component_transfer_step(
    propagated_value_shell: &SalsaSemanticValueShellSummary,
    local_value_shell: &SalsaSemanticValueShellSummary,
    current_value_shell: Option<&SalsaSemanticValueShellSummary>,
) -> (r: SalsaSemanticValueShellSummary)
    ensures
        spec_step(propagated_value_shell@, local_value_shell@, opt_ref_view(current_value_shell), r@),
{
    let propagated = build_effective_transfer_shell(propagated_value_shell);
    let local = build_effective_transfer_shell(local_value_shell);
    let current = match current_value_shell {
        Some(c) => build_effective_transfer_shell(c),
        None => None,
    };
    let next = merge_component_iteration_shells(propagated, local, current);
    build_transfer_value_shell(&next)
}

pub proof fn lemma_strongest_of_self(list: Seq<(SalsaSemanticResolveStateSummary, Seq<u32>)>, x: (SalsaSemanticResolveStateSummary, Seq<u32>))
    requires
        x.0 == spec_strongest_state(shell_states(list)),
    ensures
        spec_strongest_state(shell_states(list.push(x))) == x.0,
{
    let s = shell_states(list);
    let s2 = shell_states(list.push(x));
    assert(s2 =~= s.push(x.0));
    assert forall|i: int| 0 <= i < s.len() implies s2[i] == s[i] by {}
    assert(s2[s.len() as int] == x.0);
}

/// One step is determined by its inputs.
pub proof fn lemma_step_unique(
    p: (SalsaSemanticResolveStateSummary, Seq<u32>),
    l: (SalsaSemanticResolveStateSummary, Seq<u32>),
    c: Option<(SalsaSemanticResolveStateSummary, Seq<u32>)>,
    r1: (SalsaSemanticResolveStateSummary, Seq<u32>),
    r2: (SalsaSemanticResolveStateSummary, Seq<u32>),
)
    requires
        spec_step(p, l, c, r1),
        spec_step(p, l, c, r2),
    ensures
        r1 == r2,
{
    lemma_sorted_unique_eq(r1.1, r2.1);
}

/// The shell that a component settles on after one step is a fixed point of the
/// step: taking one more step with it as the current shell gives it back.
pub proof fn law_transfer_step_fixed_point(
    p: (SalsaSemanticResolveStateSummary, Seq<u32>),
    l: (SalsaSemanticResolveStateSummary, Seq<u32>),
    seed: (SalsaSemanticResolveStateSummary, Seq<u32>),
)
    requires
        spec_step(p, l, None, seed),
    ensures
        spec_step(p, l, Some(seed), seed),
{
    let a = opt_seq(spec_effective(p)) + opt_seq(spec_effective(l));
    let list0 = a + opt_seq(None);
    assert(list0 =~= a);
    assert(spec_transfer(seed) == seed);
    match spec_effective(seed) {
        None => {},
        Some(t) => {
            assert(t == seed);
            let list1 = a + seq![seed];
            assert(list1 =~= a.push(seed));
            assert(seed.0 == spec_strongest_state(shell_states(a)));
            lemma_strongest_of_self(a, seed);
            assert forall|x: u32| seed.1.contains(x) <==> spec_some_candidate(list1, x) by {
                if spec_some_candidate(list1, x) {
                    let k = choose|k: int| 0 <= k < list1.len() && list1[k].1.contains(x);
                    if k < a.len() {
                        assert(list1[k] == a[k]);
                        assert(spec_some_candidate(a, x));
                    }
                }
                if seed.1.contains(x) {
                    assert(list1[a.len() as int] == seed);
                }
            }
        },
    }
}

/// Solves a component: one transfer step, and for a cycle further steps until
/// the shell no longer changes. Returns the shell and the steps taken after the
/// first.
pub fn solve_component_fixedpoint(
    input_value_shell: &SalsaSemanticValueShellSummary,
    local_value_shell: &SalsaSemanticValueShellSummary,
    is_cycle: bool,
    has_input: bool,
) -> (r: (SalsaSemanticValueShellSummary, usize))
    ensures
        spec_step(spec_propagated(input_value_shell@, has_input), local_value_shell@, None, r.0@),
        spec_step(spec_propagated(input_value_shell@, has_input), local_value_shell@, Some(r.0@), r.0@),
        r.1 == (if is_cycle { 1usize } else { 0usize }),
{
    let propagated_value_shell = build_propagated_value_shell(input_value_shell, has_input);
    let seed = apply_component_transfer_step(&propagated_value_shell, local_value_shell, None);
    proof { law_transfer_step_fixed_point(propagated_value_shell@, local_value_shell@, seed@); }
    if !is_cycle {
        return (seed, 0);
    }
    let mut current = clone_shell(&seed);
    let mut iterations: usize = 0;
    loop
        invariant
            iterations == 0,
            is_cycle,
            current@ == seed@,
            propagated_value_shell@ == spec_propagated(input_value_shell@, has_input),
            spec_step(propagated_value_shell@, local_value_shell@, None, seed@),
            spec_step(propagated_value_shell@, local_value_shell@, Some(seed@), seed@),
        decreases 1 - iterations,
    {
        iterations = iterations + 1;
        let next = apply_component_transfer_step(&propagated_value_shell, local_value_shell, Some(&current));
        proof { lemma_step_unique(propagated_value_shell@, local_value_shell@, Some(seed@), next@, seed@); }
        if shells_equal(&next, &current) {
            return (current, iterations);
        }
        current = next;
    }
}

} // verus!
