use emmylua_query::decls::{SalsaDeclKindSummary, SalsaDeclSummary, SalsaDeclTreeSummary};
use emmylua_query::graph_build::build_semantic_graph_summary;
use emmylua_query::module::{SalsaExportTargetSummary, SalsaModuleExportSummary};
use emmylua_query::semantic::{SalsaModuleExportSemanticSummary, SalsaSemanticTargetSummary, SalsaSingleFileSemanticSummary};
use emmylua_query::semantic_graph::{SalsaSemanticGraphEdgeKindSummary, SalsaSemanticGraphEdgeSummary, SalsaSemanticGraphNodeSummary};
use emmylua_query::semantic_solver::SalsaSignatureReturnResolveStateSummary;
use emmylua_query::signature_model::{
    SalsaCallExplainSummary, SalsaForRangeIterQueryIndex, SalsaSignatureIndexSummary, SalsaSignatureSummary, SalsaForRangeIterQuerySummary,
    SalsaSignatureExplainIndex, SalsaSignatureReturnExprKindSummary, SalsaSignatureReturnQueryIndex,
    SalsaSignatureReturnQuerySummary, SalsaSignatureReturnValueSummary,
};
use emmylua_query::semantic_solver::SalsaForRangeIterResolveStateSummary;
use emmylua_query::type_info::{
    SalsaMemberTypeInfoSummary, SalsaMemberTypeQueryIndex, SalsaSyntaxIdSummary, SalsaTypeCandidateOriginSummary,
    SalsaTypeCandidateSummary,
};
use emmylua_query::uses::{
    SalsaMemberUseSummary, SalsaNameUseResolutionSummary, SalsaNameUseSummary, SalsaUseSiteIndexSummary,
    SalsaUseSiteRoleSummary,
};

use SalsaSemanticGraphEdgeKindSummary as K;
use SalsaSemanticGraphNodeSummary::{DeclValue, ForRangeIter, MemberValue, ModuleExport, SignatureReturn};

fn id(start: u32) -> SalsaSyntaxIdSummary {
    SalsaSyntaxIdSummary { kind: 1, start_offset: start, end_offset: start + 1 }
}

fn decl(id: u32, value_expr_offset: Option<u32>) -> SalsaDeclSummary {
    SalsaDeclSummary {
        id,
        name: format!("d{}", id),
        kind: SalsaDeclKindSummary::Local { attrib: None },
        scope_id: 0,
        start_offset: id * 10,
        value_expr_offset,
        value_expr_syntax_id: None,
        value_result_index: 0,
        source_call_syntax_id: None,
    }
}

fn name_use(offset: u32, decl_id: u32) -> SalsaNameUseSummary {
    SalsaNameUseSummary {
        syntax_offset: offset,
        syntax_id: id(offset),
        name: "n".to_string(),
        role: SalsaUseSiteRoleSummary::Read,
        resolution: SalsaNameUseResolutionSummary::LocalDecl(decl_id),
    }
}

fn call(offset: u32, resolved: Option<u32>, candidates: Vec<u32>) -> SalsaCallExplainSummary {
    SalsaCallExplainSummary {
        syntax_offset: offset,
        syntax_id: id(offset),
        candidate_signature_offsets: candidates,
        resolved_signature_offset: resolved,
        returns: vec![],
    }
}

fn signature(offset: u32) -> SalsaSignatureSummary {
    SalsaSignatureSummary {
        syntax_offset: offset,
        owner_offset: offset,
        name: None,
        is_method: false,
        params: vec![],
        doc_param_offsets: vec![],
    }
}

fn edge(from: SalsaSemanticGraphNodeSummary, to: SalsaSemanticGraphNodeSummary, kind: K) -> SalsaSemanticGraphEdgeSummary {
    SalsaSemanticGraphEdgeSummary { from, to, kind }
}

fn semantic(target: Option<SalsaSemanticTargetSummary>) -> SalsaSingleFileSemanticSummary {
    SalsaSingleFileSemanticSummary {
        file_tag_properties: vec![],
        required_modules: vec![],
        targets: vec![],
        module_export: target.map(|t| SalsaModuleExportSemanticSummary {
            export_target: SalsaExportTargetSummary::LocalName("d1".to_string()),
            export: SalsaModuleExportSummary::LocalDecl { name: "d1".to_string(), decl_id: 1 },
            semantic_target: Some(t),
            doc_owners: vec![],
            tag_properties: vec![],
        }),
    }
}

#[test]
fn semantic_graph_links_initializers_loops_returns_and_export() {
    let decl_tree = SalsaDeclTreeSummary {
        decls: vec![decl(1, Some(100)), decl(2, Some(200)), decl(3, None), decl(1, Some(100))],
        scopes: vec![],
    };
    let member_types = SalsaMemberTypeQueryIndex {
        members: vec![SalsaMemberTypeInfoSummary {
            target: 5,
            candidates: vec![SalsaTypeCandidateSummary {
                origin: SalsaTypeCandidateOriginSummary::Decl(2),
                explicit_type_offsets: vec![],
                named_type_names: vec![],
                initializer_offset: Some(300),
                value_expr_syntax_id: None,
                value_result_index: 0,
                source_call_syntax_id: None,
                signature_offset: None,
            }],
        }],
    };
    let signatures = SalsaSignatureIndexSummary {
        signatures: vec![signature(20), signature(10)],
    };
    let loops = SalsaForRangeIterQueryIndex {
        loops: vec![SalsaForRangeIterQuerySummary {
            loop_offset: 40,
            iter_expr_offsets: vec![400],
            state: SalsaForRangeIterResolveStateSummary::Partial,
            source: None,
            iter_vars: vec![],
        }],
    };
    let use_sites = SalsaUseSiteIndexSummary {
        names: vec![name_use(100, 2), name_use(400, 3), name_use(500, 1)],
        members: vec![SalsaMemberUseSummary { syntax_offset: 200, syntax_id: id(200), role: SalsaUseSiteRoleSummary::Read, target: 5 }],
        calls: vec![],
    };
    let calls = SalsaSignatureExplainIndex { calls: vec![call(300, Some(10), vec![20, 99])] };
    let returns = SalsaSignatureReturnQueryIndex {
        signatures: vec![SalsaSignatureReturnQuerySummary {
            signature_offset: 10,
            state: SalsaSignatureReturnResolveStateSummary::Partial,
            doc_returns: vec![],
            values: vec![SalsaSignatureReturnValueSummary {
                expr_offset: 500,
                kind: SalsaSignatureReturnExprKindSummary::Call,
                doc_return_type_offsets: vec![],
                name_type: None,
                member_type: None,
                call: Some(call(500, Some(20), vec![])),
            }],
        }],
    };
    let graph = build_semantic_graph_summary(
        &decl_tree,
        &member_types,
        &signatures,
        &loops,
        &use_sites,
        &calls,
        &returns,
        &semantic(Some(SalsaSemanticTargetSummary::Decl(1))),
    );
    assert_eq!(
        graph.nodes,
        vec![
            DeclValue(1),
            DeclValue(2),
            DeclValue(3),
            MemberValue(5),
            SignatureReturn(10),
            SignatureReturn(20),
            ForRangeIter(40),
            ModuleExport,
        ]
    );
    assert_eq!(
        graph.edges,
        vec![
            edge(DeclValue(2), DeclValue(1), K::InitializerDecl),
            edge(DeclValue(3), ForRangeIter(40), K::InitializerDecl),
            edge(MemberValue(5), DeclValue(2), K::InitializerMember),
            edge(SignatureReturn(10), DeclValue(1), K::SignatureReturnDecl),
            edge(SignatureReturn(10), MemberValue(5), K::InitializerResolvedCallReturn),
            edge(SignatureReturn(10), SignatureReturn(20), K::ResolvedCallReturn),
            edge(SignatureReturn(20), MemberValue(5), K::InitializerCandidateCallReturn),
            edge(ModuleExport, DeclValue(1), K::ExportTarget),
        ]
    );
}

#[test]
fn semantic_graph_without_export_or_known_targets() {
    let decl_tree = SalsaDeclTreeSummary { decls: vec![decl(1, Some(100))], scopes: vec![] };
    let use_sites = SalsaUseSiteIndexSummary { names: vec![name_use(100, 7)], members: vec![], calls: vec![] };
    let graph = build_semantic_graph_summary(
        &decl_tree,
        &SalsaMemberTypeQueryIndex { members: vec![] },
        &SalsaSignatureIndexSummary { signatures: vec![] },
        &SalsaForRangeIterQueryIndex { loops: vec![] },
        &use_sites,
        &SalsaSignatureExplainIndex { calls: vec![] },
        &SalsaSignatureReturnQueryIndex { signatures: vec![] },
        &semantic(Some(SalsaSemanticTargetSummary::Member(9))),
    );
    assert_eq!(graph.nodes, vec![DeclValue(1), ModuleExport]);
    assert!(graph.edges.is_empty());
}
