use emmylua_query::semantic_graph::{
    SalsaSemanticGraphEdgeKindSummary, SalsaSemanticGraphEdgeSummary, SalsaSemanticGraphNodeSummary,
    SalsaSemanticGraphSccComponentSummary, SalsaSemanticGraphSummary,
};
use emmylua_query::semantic_scc::build_semantic_graph_scc_index;
use emmylua_query::semantic_solver::{SalsaSemanticResolveStateSummary, SalsaSemanticValueShellSummary};
use emmylua_query::signature_model::{
    SalsaCallExplainSummary, SalsaDocTypeRef, SalsaForRangeIterQueryIndex, SalsaSignatureExplainIndex,
    SalsaSignatureReturnExplainSummary, SalsaSignatureReturnExprKindSummary, SalsaSignatureReturnItemExplainSummary,
    SalsaSignatureReturnQueryIndex, SalsaSignatureReturnQuerySummary, SalsaSignatureReturnValueSummary,
    SalsaSignatureTypeExplainSummary, find_call_explain_at, find_call_explain_by_syntax_id,
};
use emmylua_query::semantic_solver::SalsaSignatureReturnResolveStateSummary;
use emmylua_query::solver_component::{
    build_semantic_solver_component_result_summary, build_semantic_solver_step_summary,
    build_semantic_value_shell_from_initializer_expr, step_semantic_solver_execution_with_signature_returns,
};
use emmylua_query::solver_execution::{
    SalsaSemanticSolverComponentResultSummary, build_semantic_solver_execution, build_semantic_solver_worklist,
    find_semantic_solver_component_result, semantic_solver_execution_is_complete,
};
use emmylua_query::type_info::{
    SalsaDeclTypeInfoSummary, SalsaDeclTypeQueryIndex, SalsaMemberTypeInfoSummary, SalsaMemberTypeQueryIndex,
    SalsaSyntaxIdSummary, SalsaTypeCandidateOriginSummary, SalsaTypeCandidateSummary,
};
use emmylua_query::uses::{
    SalsaMemberUseSummary, SalsaNameUseResolutionSummary, SalsaNameUseSummary, SalsaUseSiteIndexSummary,
    SalsaUseSiteRoleSummary,
};
use emmylua_query::value_summaries::{build_semantic_decl_summary, build_semantic_member_summary};

use SalsaSemanticGraphNodeSummary::{DeclValue, MemberValue, ModuleExport, SignatureReturn};
use SalsaSemanticResolveStateSummary::{Partial, Resolved, Unknown};

fn shell(state: SalsaSemanticResolveStateSummary, offsets: &[u32]) -> SalsaSemanticValueShellSummary {
    SalsaSemanticValueShellSummary { state, candidate_type_offsets: offsets.to_vec() }
}

fn check(s: &SalsaSemanticValueShellSummary, state: SalsaSemanticResolveStateSummary, offsets: &[u32]) {
    assert_eq!(s.state, state);
    assert_eq!(s.candidate_type_offsets, offsets.to_vec());
}

fn view(s: Option<SalsaSemanticValueShellSummary>) -> Option<(SalsaSemanticResolveStateSummary, Vec<u32>)> {
    s.map(|s| (s.state, s.candidate_type_offsets))
}

fn decl(decl_id: u32, explicit: &[u32], initializer_offset: Option<u32>) -> SalsaDeclTypeInfoSummary {
    SalsaDeclTypeInfoSummary {
        decl_id,
        name: format!("d{}", decl_id),
        explicit_type_offsets: explicit.to_vec(),
        named_type_names: vec![],
        initializer_offset,
        value_expr_syntax_id: None,
        value_result_index: 0,
        source_call_syntax_id: None,
        signature_offset: None,
        value_signature_offset: None,
    }
}

fn candidate(explicit: &[u32], initializer_offset: Option<u32>) -> SalsaTypeCandidateSummary {
    SalsaTypeCandidateSummary {
        origin: SalsaTypeCandidateOriginSummary::Decl(1),
        explicit_type_offsets: explicit.to_vec(),
        named_type_names: vec![],
        initializer_offset,
        value_expr_syntax_id: None,
        value_result_index: 0,
        source_call_syntax_id: None,
        signature_offset: None,
    }
}

fn id(start: u32, end: u32) -> SalsaSyntaxIdSummary {
    SalsaSyntaxIdSummary { kind: 0x8000 + 35, start_offset: start, end_offset: end }
}

fn call(offset: u32, returns: &[u32]) -> SalsaCallExplainSummary {
    SalsaCallExplainSummary {
        syntax_offset: offset,
        syntax_id: id(offset, offset + 5),
        candidate_signature_offsets: vec![],
        resolved_signature_offset: None,
        returns: vec![SalsaSignatureReturnExplainSummary {
            syntax_offset: 90,
            items: returns
                .iter()
                .map(|t| SalsaSignatureReturnItemExplainSummary {
                    doc_type: SalsaSignatureTypeExplainSummary { type_ref: SalsaDocTypeRef::Node(*t) },
                })
                .collect(),
        }],
    }
}

fn no_uses() -> SalsaUseSiteIndexSummary {
    SalsaUseSiteIndexSummary { names: vec![], members: vec![], calls: vec![] }
}

fn signature_return(offset: u32, doc: &[u32]) -> SalsaSignatureReturnQuerySummary {
    SalsaSignatureReturnQuerySummary {
        signature_offset: offset,
        state: SalsaSignatureReturnResolveStateSummary::Partial,
        doc_returns: vec![],
        values: vec![SalsaSignatureReturnValueSummary {
            expr_offset: 30,
            kind: SalsaSignatureReturnExprKindSummary::Name,
            doc_return_type_offsets: doc.to_vec(),
            name_type: None,
            member_type: None,
            call: None,
        }],
    }
}

fn component(component_id: usize, nodes: Vec<SalsaSemanticGraphNodeSummary>, is_cycle: bool) -> SalsaSemanticGraphSccComponentSummary {
    SalsaSemanticGraphSccComponentSummary {
        component_id,
        nodes,
        successor_component_ids: vec![],
        predecessor_component_ids: vec![],
        is_cycle,
    }
}

#[test]
fn call_explanations_are_found_by_offset_and_by_node() {
    let index = SalsaSignatureExplainIndex { calls: vec![call(10, &[1]), call(20, &[2]), call(10, &[3])] };
    assert_eq!(find_call_explain_at(&index, 10).map(|c| c.returns[0].items.len()), Some(1));
    assert_eq!(
        find_call_explain_at(&index, 10).map(|c| c.returns[0].items[0].doc_type.type_ref),
        Some(SalsaDocTypeRef::Node(1))
    );
    assert!(find_call_explain_at(&index, 15).is_none());
    assert_eq!(find_call_explain_by_syntax_id(&index, id(20, 25)).map(|c| c.syntax_offset), Some(20));
    assert!(find_call_explain_by_syntax_id(&index, id(20, 26)).is_none());
}

#[test]
fn initializer_shell_prefers_the_call_then_the_member_then_the_local() {
    let decls = SalsaDeclTypeQueryIndex { decls: vec![decl(4, &[11], None)] };
    let members = SalsaMemberTypeQueryIndex {
        members: vec![SalsaMemberTypeInfoSummary { target: 6, candidates: vec![candidate(&[12], None)] }],
    };
    let returns = SalsaSignatureReturnQueryIndex { signatures: vec![] };
    let calls = SalsaSignatureExplainIndex { calls: vec![call(50, &[8])] };
    let uses = SalsaUseSiteIndexSummary {
        names: vec![SalsaNameUseSummary {
            syntax_offset: 70,
            syntax_id: id(70, 71),
            name: "x".to_string(),
            role: SalsaUseSiteRoleSummary::Read,
            resolution: SalsaNameUseResolutionSummary::LocalDecl(4),
        }],
        members: vec![SalsaMemberUseSummary {
            syntax_offset: 60,
            syntax_id: id(60, 65),
            role: SalsaUseSiteRoleSummary::Read,
            target: 6,
        }],
        calls: vec![],
    };
    let at = |offset: u32, source: Option<SalsaSyntaxIdSummary>| {
        build_semantic_value_shell_from_initializer_expr(offset, 0, source, &decls, &members, &returns, &uses, &calls)
    };
    assert_eq!(view(at(50, None)), Some((Resolved, vec![8])));
    assert_eq!(view(at(99, Some(id(50, 55)))), Some((Resolved, vec![8])));
    assert_eq!(view(at(60, None)), Some((Resolved, vec![12])));
    assert_eq!(view(at(70, None)), Some((Resolved, vec![11])));
    assert!(at(80, None).is_none());
    let with_slot = build_semantic_value_shell_from_initializer_expr(50, 1, None, &decls, &members, &returns, &uses, &calls);
    assert_eq!(view(with_slot), Some((Unknown, vec![])));
}

fn predecessor_result() -> SalsaSemanticSolverComponentResultSummary {
    SalsaSemanticSolverComponentResultSummary {
        component_id: 2,
        decl_ids: vec![],
        member_targets: vec![],
        signature_offsets: vec![],
        for_range_loop_offsets: vec![],
        includes_module_export: false,
        consumed_predecessor_component_ids: vec![],
        input_value_shell: shell(Unknown, &[]),
        propagated_value_shell: shell(Unknown, &[]),
        local_value_shell: shell(Resolved, &[4]),
        value_shell: shell(Resolved, &[4]),
        fixedpoint_value_shell: shell(Resolved, &[4]),
        fixedpoint_iterations: 0,
        is_cycle: false,
    }
}

#[test]
fn component_result_merges_local_and_predecessor_shells() {
    let decls = SalsaDeclTypeQueryIndex { decls: vec![decl(1, &[7], Some(20))] };
    let members = SalsaMemberTypeQueryIndex { members: vec![] };
    let returns = SalsaSignatureReturnQueryIndex { signatures: vec![signature_return(3, &[9])] };
    let loops = SalsaForRangeIterQueryIndex { loops: vec![] };
    let calls = SalsaSignatureExplainIndex { calls: vec![] };
    let c = component(0, vec![DeclValue(1), MemberValue(5), SignatureReturn(3), DeclValue(1), ModuleExport], false);
    let r = build_semantic_solver_component_result_summary(
        &c,
        &decls,
        &members,
        &returns,
        &loops,
        &no_uses(),
        &calls,
        None,
        &[predecessor_result()],
    );
    assert_eq!(r.component_id, 0);
    assert_eq!(r.decl_ids, vec![1]);
    assert_eq!(r.member_targets, vec![5]);
    assert_eq!(r.signature_offsets, vec![3]);
    assert!(r.for_range_loop_offsets.is_empty());
    assert!(r.includes_module_export);
    assert_eq!(r.consumed_predecessor_component_ids, vec![2]);
    check(&r.input_value_shell, Resolved, &[4]);
    check(&r.propagated_value_shell, Resolved, &[4]);
    check(&r.local_value_shell, Resolved, &[7, 9]);
    check(&r.value_shell, Resolved, &[4, 7, 9]);
    check(&r.fixedpoint_value_shell, Resolved, &[4, 7, 9]);
    assert_eq!(r.fixedpoint_iterations, 0);
    assert!(!r.is_cycle);

    let alone = build_semantic_solver_component_result_summary(
        &component(1, vec![SignatureReturn(3)], true),
        &decls,
        &members,
        &returns,
        &loops,
        &no_uses(),
        &calls,
        None,
        &[],
    );
    assert!(alone.consumed_predecessor_component_ids.is_empty());
    check(&alone.input_value_shell, Unknown, &[]);
    check(&alone.propagated_value_shell, Unknown, &[]);
    check(&alone.local_value_shell, Partial, &[9]);
    check(&alone.fixedpoint_value_shell, Partial, &[9]);
    assert_eq!(alone.fixedpoint_iterations, 1);
}

fn edge(from: SalsaSemanticGraphNodeSummary, to: SalsaSemanticGraphNodeSummary) -> SalsaSemanticGraphEdgeSummary {
    SalsaSemanticGraphEdgeSummary { from, to, kind: SalsaSemanticGraphEdgeKindSummary::InitializerDecl }
}

#[test]
fn solver_steps_carry_results_to_successors() {
    let graph = SalsaSemanticGraphSummary {
        nodes: vec![DeclValue(1), SignatureReturn(3)],
        edges: vec![edge(SignatureReturn(3), DeclValue(1))],
    };
    let scc = build_semantic_graph_scc_index(&graph);
    let execution = build_semantic_solver_execution(&build_semantic_solver_worklist(&scc));
    let decls = SalsaDeclTypeQueryIndex { decls: vec![decl(1, &[7], None)] };
    let members = SalsaMemberTypeQueryIndex { members: vec![] };
    let returns = SalsaSignatureReturnQueryIndex { signatures: vec![signature_return(3, &[9])] };
    let loops = SalsaForRangeIterQueryIndex { loops: vec![] };
    let calls = SalsaSignatureExplainIndex { calls: vec![] };
    let uses = no_uses();

    let first = step_semantic_solver_execution_with_signature_returns(
        &execution, &scc, &decls, &members, &returns, &loops, &uses, &calls, None,
    )
    .expect("a ready component");
    let first_result = first.component_result.clone().expect("a result");
    assert_eq!(first_result.signature_offsets, vec![3]);
    check(&first_result.fixedpoint_value_shell, Partial, &[9]);
    assert_eq!(first.next_execution.completed_component_ids, vec![first.completed_component_id]);

    let second = step_semantic_solver_execution_with_signature_returns(
        &first.next_execution, &scc, &decls, &members, &returns, &loops, &uses, &calls, None,
    )
    .expect("the successor is ready");
    let second_result = second.component_result.clone().expect("a result");
    assert_eq!(second_result.decl_ids, vec![1]);
    assert_eq!(second_result.consumed_predecessor_component_ids, vec![first.completed_component_id]);
    check(&second_result.input_value_shell, Partial, &[9]);
    check(&second_result.fixedpoint_value_shell, Resolved, &[7, 9]);
    assert!(semantic_solver_execution_is_complete(&second.next_execution));
    assert!(find_semantic_solver_component_result(&second.next_execution, second.completed_component_id).is_some());
    assert!(step_semantic_solver_execution_with_signature_returns(
        &second.next_execution, &scc, &decls, &members, &returns, &loops, &uses, &calls, None,
    )
    .is_none());

    let direct = build_semantic_solver_step_summary(
        &execution, 7, &scc, &decls, &members, &returns, &loops, &uses, &calls, None,
    );
    assert!(direct.is_none());
}

#[test]
fn decl_and_member_summaries_need_their_node() {
    let d = decl(1, &[7, 3, 7], Some(20));
    let s = build_semantic_decl_summary(&component(5, vec![DeclValue(1)], true), &d).expect("holds decl 1");
    assert_eq!(s.component_id, 5);
    assert_eq!(s.decl_type.name, "d1");
    check(&s.value_shell, Resolved, &[3, 7]);
    check(&s.local_value_shell, Resolved, &[3, 7]);
    check(&s.fixedpoint_value_shell, Resolved, &[3, 7]);
    check(&s.propagated_value_shell, Unknown, &[]);
    assert!(s.is_cycle);
    assert!(build_semantic_decl_summary(&component(5, vec![DeclValue(2), MemberValue(1)], true), &d).is_none());

    let m = SalsaMemberTypeInfoSummary { target: 6, candidates: vec![candidate(&[], Some(40))] };
    let s = build_semantic_member_summary(&component(3, vec![MemberValue(6)], false), &m).expect("holds member 6");
    assert_eq!(s.member_type.target, 6);
    check(&s.value_shell, Partial, &[]);
    assert!(!s.is_cycle);
    assert!(build_semantic_member_summary(&component(3, vec![DeclValue(6)], false), &m).is_none());
}
