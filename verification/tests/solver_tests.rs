use emmylua_query::semantic_graph::{
    SalsaSemanticGraphEdgeKindSummary, SalsaSemanticGraphEdgeSummary, SalsaSemanticGraphNodeSummary,
    SalsaSemanticGraphSccComponentSummary, SalsaSemanticGraphSummary,
};
use emmylua_query::semantic_scc::build_semantic_graph_scc_index;
use emmylua_query::semantic_solver::{
    SalsaForRangeIterResolveStateSummary, SalsaModuleExportResolveStateSummary, SalsaSemanticResolveStateSummary,
    SalsaSemanticValueShellSummary, SalsaSignatureReturnResolveStateSummary, for_range_iter_resolve_state_from_semantic,
    join_semantic_resolve_states, merge_semantic_value_shells, module_export_resolve_state_from_semantic,
    semantic_resolve_state_from_for_range_iter, semantic_resolve_state_from_signature_return,
    signature_return_resolve_state_from_semantic, solve_component_fixedpoint,
};
use emmylua_query::signature_model::{
    SalsaCallExplainSummary, SalsaDocTypeRef, SalsaProgramPointTypeInfoSummary, SalsaSignatureReturnExplainSummary,
    SalsaSignatureReturnExprKindSummary, SalsaSignatureReturnItemExplainSummary, SalsaSignatureReturnQueryIndex,
    SalsaSignatureReturnQuerySummary, SalsaSignatureReturnValueSummary, SalsaSignatureTypeExplainSummary,
};
use emmylua_query::solver_execution::{
    SalsaSemanticSolverComponentResultSummary, SalsaSemanticSolverTaskStateSummary, build_semantic_solver_execution,
    build_semantic_solver_worklist, collect_semantic_solver_ready_tasks, complete_semantic_solver_execution_task,
    complete_semantic_solver_execution_task_with_result, find_next_ready_semantic_solver_execution_task,
    find_semantic_solver_component_result, find_semantic_solver_execution_task, find_semantic_solver_task,
    semantic_solver_execution_is_complete, step_semantic_solver_execution,
};
use emmylua_query::solver_shells::{
    build_semantic_value_shell_from_signature_return, signature_return_value_candidate_type_offsets,
};
use emmylua_query::solver_summaries::{build_signature_return_component_summary, build_signature_return_summary};
use emmylua_query::type_info::{
    SalsaTypeCandidateOriginSummary, SalsaTypeCandidateSummary, SalsaSyntaxIdSummary, has_stable_initializer_evidence,
};

use SalsaSemanticGraphNodeSummary::{DeclValue, SignatureReturn};
use SalsaSemanticResolveStateSummary::{Partial, RecursiveDependency, Resolved, Unknown};

fn shell(state: SalsaSemanticResolveStateSummary, offsets: &[u32]) -> SalsaSemanticValueShellSummary {
    SalsaSemanticValueShellSummary { state, candidate_type_offsets: offsets.to_vec() }
}

#[test]
fn join_states_by_strength() {
    assert_eq!(join_semantic_resolve_states(&vec![]), Unknown);
    assert_eq!(join_semantic_resolve_states(&vec![Resolved, Resolved]), Resolved);
    assert_eq!(join_semantic_resolve_states(&vec![Resolved, Unknown]), Partial);
    assert_eq!(join_semantic_resolve_states(&vec![Unknown, Partial]), Partial);
    assert_eq!(join_semantic_resolve_states(&vec![Unknown, Unknown]), Unknown);
    assert_eq!(join_semantic_resolve_states(&vec![Resolved, RecursiveDependency]), RecursiveDependency);
}

#[test]
fn merge_shells_unions_candidates() {
    let merged = merge_semantic_value_shells(&vec![shell(Resolved, &[9, 3]), shell(Partial, &[3, 5])]);
    assert_eq!(merged.state, Partial);
    assert_eq!(merged.candidate_type_offsets, vec![3, 5, 9]);
    let empty = merge_semantic_value_shells(&vec![]);
    assert_eq!(empty.state, Unknown);
    assert!(empty.candidate_type_offsets.is_empty());
}

#[test]
fn state_conversions_round_trip() {
    for s in [
        SalsaSignatureReturnResolveStateSummary::Resolved,
        SalsaSignatureReturnResolveStateSummary::Partial,
        SalsaSignatureReturnResolveStateSummary::RecursiveDependency,
    ] {
        assert_eq!(signature_return_resolve_state_from_semantic(semantic_resolve_state_from_signature_return(s)), Some(s));
    }
    for s in [
        SalsaForRangeIterResolveStateSummary::Resolved,
        SalsaForRangeIterResolveStateSummary::Partial,
        SalsaForRangeIterResolveStateSummary::RecursiveDependency,
    ] {
        assert_eq!(for_range_iter_resolve_state_from_semantic(semantic_resolve_state_from_for_range_iter(s)), Some(s));
    }
    assert_eq!(signature_return_resolve_state_from_semantic(Unknown), None);
    assert_eq!(for_range_iter_resolve_state_from_semantic(Unknown), None);
    assert_eq!(module_export_resolve_state_from_semantic(Unknown), None);
    assert_eq!(module_export_resolve_state_from_semantic(Partial), Some(SalsaModuleExportResolveStateSummary::Partial));
}

#[test]
fn fixedpoint_merges_input_and_local() {
    let (r, n) = solve_component_fixedpoint(&shell(Resolved, &[3]), &shell(Partial, &[7]), false, true);
    assert_eq!(r.state, Resolved);
    assert_eq!(r.candidate_type_offsets, vec![3, 7]);
    assert_eq!(n, 0);
    let (r, n) = solve_component_fixedpoint(&shell(Resolved, &[3]), &shell(Partial, &[7]), true, true);
    assert_eq!(r.state, Resolved);
    assert_eq!(r.candidate_type_offsets, vec![3, 7]);
    assert_eq!(n, 1);
}

#[test]
fn fixedpoint_without_input_keeps_local() {
    let (r, _) = solve_component_fixedpoint(&shell(Resolved, &[3]), &shell(Partial, &[7]), false, false);
    assert_eq!(r.state, Partial);
    assert_eq!(r.candidate_type_offsets, vec![7]);
    let (r, _) = solve_component_fixedpoint(&shell(Unknown, &[]), &shell(Partial, &[]), true, true);
    assert_eq!(r.state, Unknown);
    assert!(r.candidate_type_offsets.is_empty());
}

fn edge(from: SalsaSemanticGraphNodeSummary, to: SalsaSemanticGraphNodeSummary) -> SalsaSemanticGraphEdgeSummary {
    SalsaSemanticGraphEdgeSummary { from, to, kind: SalsaSemanticGraphEdgeKindSummary::InitializerDecl }
}

fn sample_graph() -> SalsaSemanticGraphSummary {
    SalsaSemanticGraphSummary {
        nodes: vec![DeclValue(1), DeclValue(2), DeclValue(3), SignatureReturn(10)],
        edges: vec![
            edge(DeclValue(1), DeclValue(2)),
            edge(DeclValue(2), DeclValue(1)),
            edge(DeclValue(2), DeclValue(3)),
            edge(SignatureReturn(10), DeclValue(1)),
        ],
    }
}

#[test]
fn worklist_starts_with_components_without_predecessors() {
    let worklist = build_semantic_solver_worklist(&build_semantic_graph_scc_index(&sample_graph()));
    assert_eq!(worklist.ready_component_ids, vec![2]);
    assert_eq!(worklist.topo_order, vec![2, 1, 0]);
    assert_eq!(find_semantic_solver_task(&worklist, 0).map(|t| t.predecessor_component_ids), Some(vec![1]));
    assert!(find_semantic_solver_task(&worklist, 5).is_none());
    let ready: Vec<usize> = collect_semantic_solver_ready_tasks(&worklist).iter().map(|t| t.component_id).collect();
    assert_eq!(ready, vec![2]);
}

#[test]
fn execution_runs_components_in_dependency_order() {
    let worklist = build_semantic_solver_worklist(&build_semantic_graph_scc_index(&sample_graph()));
    let execution = build_semantic_solver_execution(&worklist);
    assert_eq!(
        find_semantic_solver_execution_task(&execution, 0).map(|t| t.state),
        Some(SalsaSemanticSolverTaskStateSummary::Blocked)
    );
    assert_eq!(find_next_ready_semantic_solver_execution_task(&execution).map(|t| t.component_id), Some(2));
    assert!(!semantic_solver_execution_is_complete(&execution));

    let mut order = Vec::new();
    let mut current = execution;
    while let Some(step) = step_semantic_solver_execution(&current) {
        assert!(step.component_result.is_none());
        order.push(step.completed_component_id);
        current = step.next_execution;
    }
    assert_eq!(order, vec![2, 1, 0]);
    assert!(semantic_solver_execution_is_complete(&current));
    assert_eq!(current.completed_component_ids, vec![0, 1, 2]);
    assert!(current.ready_component_ids.is_empty());
}

#[test]
fn completing_a_task_unblocks_its_successors() {
    let worklist = build_semantic_solver_worklist(&build_semantic_graph_scc_index(&sample_graph()));
    let execution = build_semantic_solver_execution(&worklist);
    let next = complete_semantic_solver_execution_task(&execution, 2);
    assert_eq!(
        find_semantic_solver_execution_task(&next, 2).map(|t| t.state),
        Some(SalsaSemanticSolverTaskStateSummary::Completed)
    );
    assert_eq!(
        find_semantic_solver_execution_task(&next, 1).map(|t| t.state),
        Some(SalsaSemanticSolverTaskStateSummary::Ready)
    );
    assert_eq!(next.ready_component_ids, vec![1]);
    assert_eq!(next.completed_component_ids, vec![2]);

    let again = complete_semantic_solver_execution_task(&next, 2);
    assert_eq!(again.completed_component_ids, vec![2]);
    assert_eq!(again.ready_component_ids, vec![1]);

    let unknown = complete_semantic_solver_execution_task(&next, 9);
    assert_eq!(unknown.completed_component_ids, vec![2]);
}

fn result_for(component_id: usize) -> SalsaSemanticSolverComponentResultSummary {
    SalsaSemanticSolverComponentResultSummary {
        component_id,
        decl_ids: vec![1, 2],
        member_targets: vec![],
        signature_offsets: vec![],
        for_range_loop_offsets: vec![],
        includes_module_export: false,
        consumed_predecessor_component_ids: vec![],
        input_value_shell: shell(Unknown, &[]),
        propagated_value_shell: shell(Unknown, &[]),
        local_value_shell: shell(Resolved, &[4]),
        value_shell: shell(Resolved, &[4]),
        fixedpoint_value_shell: shell(Resolved, &[4]),
        fixedpoint_iterations: 1,
        is_cycle: true,
    }
}

#[test]
fn completing_with_a_result_records_it() {
    let worklist = build_semantic_solver_worklist(&build_semantic_graph_scc_index(&sample_graph()));
    let execution = build_semantic_solver_execution(&worklist);
    let next = complete_semantic_solver_execution_task_with_result(&execution, 2, Some(result_for(2)));
    let found = find_semantic_solver_component_result(&next, 2).expect("result of component 2");
    assert_eq!(found.decl_ids, vec![1, 2]);
    assert!(find_semantic_solver_component_result(&next, 1).is_none());
    let next = complete_semantic_solver_execution_task_with_result(&next, 1, Some(result_for(1)));
    let ids: Vec<usize> = next.component_results.iter().map(|r| r.component_id).collect();
    assert_eq!(ids, vec![1, 2]);
}

fn return_value(doc: &[u32]) -> SalsaSignatureReturnValueSummary {
    SalsaSignatureReturnValueSummary {
        expr_offset: 30,
        kind: SalsaSignatureReturnExprKindSummary::Name,
        doc_return_type_offsets: doc.to_vec(),
        name_type: None,
        member_type: None,
        call: None,
    }
}

fn signature_return(offset: u32, state: SalsaSignatureReturnResolveStateSummary, doc: &[u32]) -> SalsaSignatureReturnQuerySummary {
    SalsaSignatureReturnQuerySummary { signature_offset: offset, state, doc_returns: vec![], values: vec![return_value(doc)] }
}

#[test]
fn signature_return_shell_uses_the_first_value() {
    let summary = signature_return(3, SalsaSignatureReturnResolveStateSummary::Partial, &[9, 3, 9]);
    let s = build_semantic_value_shell_from_signature_return(&summary);
    assert_eq!(s.state, Partial);
    assert_eq!(s.candidate_type_offsets, vec![3, 9]);
    let no_values = SalsaSignatureReturnQuerySummary {
        signature_offset: 4,
        state: SalsaSignatureReturnResolveStateSummary::Resolved,
        doc_returns: vec![],
        values: vec![],
    };
    let s = build_semantic_value_shell_from_signature_return(&no_values);
    assert_eq!(s.state, Resolved);
    assert!(s.candidate_type_offsets.is_empty());
}

fn candidate(explicit: &[u32]) -> SalsaTypeCandidateSummary {
    SalsaTypeCandidateSummary {
        origin: SalsaTypeCandidateOriginSummary::Decl(1),
        explicit_type_offsets: explicit.to_vec(),
        named_type_names: vec![],
        initializer_offset: None,
        value_expr_syntax_id: None,
        value_result_index: 0,
        source_call_syntax_id: None,
        signature_offset: None,
    }
}

fn item(type_ref: SalsaDocTypeRef) -> SalsaSignatureReturnItemExplainSummary {
    SalsaSignatureReturnItemExplainSummary { doc_type: SalsaSignatureTypeExplainSummary { type_ref } }
}

#[test]
fn value_candidates_gather_doc_name_and_call_types() {
    let mut value = return_value(&[5]);
    value.name_type = Some(SalsaProgramPointTypeInfoSummary { candidates: vec![candidate(&[4])] });
    value.call = Some(SalsaCallExplainSummary {
        syntax_offset: 31,
        syntax_id: SalsaSyntaxIdSummary { kind: 0x8000 + 35, start_offset: 31, end_offset: 40 },
        candidate_signature_offsets: vec![],
        resolved_signature_offset: Some(50),
        returns: vec![
            SalsaSignatureReturnExplainSummary {
                syntax_offset: 60,
                items: vec![item(SalsaDocTypeRef::Node(8)), item(SalsaDocTypeRef::Node(2))],
            },
            SalsaSignatureReturnExplainSummary { syntax_offset: 61, items: vec![item(SalsaDocTypeRef::Node(6))] },
            SalsaSignatureReturnExplainSummary {
                syntax_offset: 62,
                items: vec![item(SalsaDocTypeRef::Node(1)), item(SalsaDocTypeRef::Incomplete)],
            },
        ],
    });
    assert_eq!(signature_return_value_candidate_type_offsets(&value, 1), vec![2, 4, 5]);
    assert_eq!(signature_return_value_candidate_type_offsets(&value, 0), vec![1, 4, 5, 6, 8]);
}

fn component(nodes: Vec<SalsaSemanticGraphNodeSummary>) -> SalsaSemanticGraphSccComponentSummary {
    SalsaSemanticGraphSccComponentSummary {
        component_id: 4,
        nodes,
        successor_component_ids: vec![],
        predecessor_component_ids: vec![],
        is_cycle: true,
    }
}

#[test]
fn signature_return_component_summary_merges_known_returns() {
    let index = SalsaSignatureReturnQueryIndex {
        signatures: vec![signature_return(3, SalsaSignatureReturnResolveStateSummary::Partial, &[9])],
    };
    let c = component(vec![SignatureReturn(7), DeclValue(1), SignatureReturn(3), SignatureReturn(7)]);
    let s = build_signature_return_component_summary(&c, &index).expect("component holds signatures");
    assert_eq!(s.component_id, 4);
    assert_eq!(s.signature_offsets, vec![3, 7]);
    assert_eq!(s.value_shell.state, Partial);
    assert_eq!(s.value_shell.candidate_type_offsets, vec![9]);
    assert_eq!(s.propagated_value_shell.state, Unknown);
    assert!(s.is_cycle);
    assert!(build_signature_return_component_summary(&component(vec![DeclValue(1)]), &index).is_none());
}

#[test]
fn signature_return_summary_needs_the_signature_in_the_component() {
    let summary = signature_return(3, SalsaSignatureReturnResolveStateSummary::Resolved, &[9]);
    let s = build_signature_return_summary(&component(vec![SignatureReturn(3)]), &summary).expect("holds 3");
    assert_eq!(s.signature_offset, 3);
    assert_eq!(s.local_value_shell.state, Resolved);
    assert_eq!(s.fixedpoint_value_shell.candidate_type_offsets, vec![9]);
    assert!(build_signature_return_summary(&component(vec![SignatureReturn(4)]), &summary).is_none());
}

#[test]
fn stable_initializers_are_literals_closures_and_tables() {
    let id = |kind: u16| Some(SalsaSyntaxIdSummary { kind, start_offset: 0, end_offset: 1 });
    assert!(has_stable_initializer_evidence(id(0x8000 + 26)));
    assert!(has_stable_initializer_evidence(id(0x8000 + 27)));
    assert!(has_stable_initializer_evidence(id(0x8000 + 30)));
    assert!(has_stable_initializer_evidence(id(0x8000 + 32)));
    assert!(!has_stable_initializer_evidence(id(0x8000 + 25)));
    assert!(!has_stable_initializer_evidence(id(0x8000 + 28)));
    assert!(!has_stable_initializer_evidence(id(5)));
    assert!(!has_stable_initializer_evidence(None));
}

#[test]
fn completing_sorts_results_by_component_stably() {
    let worklist = build_semantic_solver_worklist(&build_semantic_graph_scc_index(&sample_graph()));
    let mut execution = build_semantic_solver_execution(&worklist);
    let mut first = result_for(3);
    first.decl_ids = vec![10];
    let mut second = result_for(3);
    second.decl_ids = vec![11];
    execution.component_results = vec![first, result_for(1), second];
    let next = complete_semantic_solver_execution_task_with_result(&execution, 2, Some(result_for(2)));
    let order: Vec<(usize, Vec<u32>)> =
        next.component_results.iter().map(|r| (r.component_id, r.decl_ids.clone())).collect();
    assert_eq!(order, vec![(1, vec![1, 2]), (2, vec![1, 2]), (3, vec![10]), (3, vec![11])]);
}

#[test]
fn every_component_is_completed_once_after_its_predecessors() {
    let graph = SalsaSemanticGraphSummary {
        nodes: vec![DeclValue(1), DeclValue(2), DeclValue(3), DeclValue(4), DeclValue(5)],
        edges: vec![
            edge(DeclValue(1), DeclValue(2)),
            edge(DeclValue(1), DeclValue(3)),
            edge(DeclValue(2), DeclValue(4)),
            edge(DeclValue(3), DeclValue(4)),
            edge(DeclValue(4), DeclValue(5)),
            edge(DeclValue(5), DeclValue(4)),
        ],
    };
    let scc = build_semantic_graph_scc_index(&graph);
    let mut current = build_semantic_solver_execution(&build_semantic_solver_worklist(&scc));
    let mut order: Vec<usize> = Vec::new();
    while let Some(step) = step_semantic_solver_execution(&current) {
        let id = step.completed_component_id;
        assert!(!order.contains(&id));
        for p in &scc.components[id].predecessor_component_ids {
            assert!(order.contains(p));
        }
        order.push(id);
        current = step.next_execution;
    }
    assert_eq!(order.len(), scc.components.len());
    assert_eq!(scc.components.len(), 4);
    assert!(semantic_solver_execution_is_complete(&current));
    assert!(current.ready_component_ids.is_empty());
}
