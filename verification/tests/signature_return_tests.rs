use emmylua_query::semantic_solver::SalsaSignatureReturnResolveStateSummary;
use emmylua_query::signature_model::{
    SalsaCallExplainSummary, SalsaDocTypeRef, SalsaProgramPointMemberTypeInfoSummary, SalsaProgramPointTypeInfoSummary,
    SalsaSignatureExplainIndex, SalsaSignatureReturnExplainSummary, SalsaSignatureReturnExprKindSummary,
    SalsaSignatureReturnItemExplainSummary, SalsaSignatureTypeExplainSummary,
};
use emmylua_query::signature_return::{
    build_signature_return_query, build_signature_return_value, collect_signature_return_doc_slot_offsets,
};
use emmylua_query::type_info::{SalsaSyntaxIdSummary, SalsaTypeCandidateOriginSummary, SalsaTypeCandidateSummary};

fn item(type_ref: SalsaDocTypeRef) -> SalsaSignatureReturnItemExplainSummary {
    SalsaSignatureReturnItemExplainSummary { doc_type: SalsaSignatureTypeExplainSummary { type_ref } }
}

fn rows() -> Vec<SalsaSignatureReturnExplainSummary> {
    vec![
        SalsaSignatureReturnExplainSummary {
            syntax_offset: 1,
            items: vec![item(SalsaDocTypeRef::Node(9)), item(SalsaDocTypeRef::Node(4))],
        },
        SalsaSignatureReturnExplainSummary { syntax_offset: 2, items: vec![item(SalsaDocTypeRef::Node(3))] },
        SalsaSignatureReturnExplainSummary {
            syntax_offset: 3,
            items: vec![item(SalsaDocTypeRef::Node(9)), item(SalsaDocTypeRef::Incomplete)],
        },
    ]
}

fn call(offset: u32, resolved: Option<u32>, candidates: Vec<u32>) -> SalsaCallExplainSummary {
    SalsaCallExplainSummary {
        syntax_offset: offset,
        syntax_id: SalsaSyntaxIdSummary { kind: 0x8000, start_offset: offset, end_offset: offset + 4 },
        candidate_signature_offsets: candidates,
        resolved_signature_offset: resolved,
        returns: vec![],
    }
}

fn candidates() -> Vec<SalsaTypeCandidateSummary> {
    vec![SalsaTypeCandidateSummary {
        origin: SalsaTypeCandidateOriginSummary::Decl(1),
        explicit_type_offsets: vec![7],
        named_type_names: vec![],
        initializer_offset: None,
        value_expr_syntax_id: None,
        value_result_index: 0,
        source_call_syntax_id: None,
        signature_offset: None,
    }]
}

#[test]
fn doc_slot_offsets_are_sorted_once() {
    assert_eq!(collect_signature_return_doc_slot_offsets(&rows(), 0), vec![3, 9]);
    assert_eq!(collect_signature_return_doc_slot_offsets(&rows(), 1), vec![4]);
    assert_eq!(collect_signature_return_doc_slot_offsets(&rows(), 2), Vec::<u32>::new());
}

#[test]
fn return_value_keeps_only_what_its_kind_reads() {
    let index = SalsaSignatureExplainIndex { calls: vec![call(40, Some(100), vec![])] };
    let name = Some(SalsaProgramPointTypeInfoSummary { candidates: candidates() });
    let member = Some(SalsaProgramPointMemberTypeInfoSummary { candidates: candidates() });

    let v = build_signature_return_value(
        40,
        0,
        Some(SalsaSignatureReturnExprKindSummary::Name),
        &rows(),
        name.clone(),
        member.clone(),
        &index,
    );
    assert_eq!(v.kind, SalsaSignatureReturnExprKindSummary::Name);
    assert_eq!(v.doc_return_type_offsets, vec![3, 9]);
    assert_eq!(v.name_type.unwrap().candidates.len(), 1);
    assert!(v.member_type.is_none() && v.call.is_none());

    let m = build_signature_return_value(40, 1, Some(SalsaSignatureReturnExprKindSummary::Member), &rows(), name.clone(), member.clone(), &index);
    assert!(m.name_type.is_none() && m.member_type.is_some() && m.call.is_none());
    assert_eq!(m.doc_return_type_offsets, vec![4]);

    let c = build_signature_return_value(40, 0, Some(SalsaSignatureReturnExprKindSummary::Call), &rows(), name.clone(), member.clone(), &index);
    assert_eq!(c.call.unwrap().resolved_signature_offset, Some(100));
    assert!(c.name_type.is_none() && c.member_type.is_none());

    let missing = build_signature_return_value(41, 0, Some(SalsaSignatureReturnExprKindSummary::Call), &rows(), None, None, &index);
    assert!(missing.call.is_none());

    let none = build_signature_return_value(40, 0, None, &rows(), name, member, &index);
    assert_eq!(none.kind, SalsaSignatureReturnExprKindSummary::Other);
    assert!(none.name_type.is_none() && none.member_type.is_none() && none.call.is_none());
}

#[test]
fn return_query_state_detects_recursion_and_partial_values() {
    let index = SalsaSignatureExplainIndex {
        calls: vec![call(40, None, vec![100, 200]), call(50, None, vec![])],
    };
    let literal = build_signature_return_value(30, 0, Some(SalsaSignatureReturnExprKindSummary::Literal), &vec![], None, None, &index);
    let recursive = build_signature_return_value(40, 0, Some(SalsaSignatureReturnExprKindSummary::Call), &vec![], None, None, &index);
    let unresolved = build_signature_return_value(50, 0, Some(SalsaSignatureReturnExprKindSummary::Call), &vec![], None, None, &index);

    let q = build_signature_return_query(100, &rows(), vec![literal.clone(), recursive.clone()]);
    assert_eq!(q.state, SalsaSignatureReturnResolveStateSummary::RecursiveDependency);
    assert_eq!(q.signature_offset, 100);
    assert_eq!(q.doc_returns.len(), 3);
    assert_eq!(q.values.len(), 2);
    let q = build_signature_return_query(300, &vec![], vec![literal.clone(), unresolved]);
    assert_eq!(q.state, SalsaSignatureReturnResolveStateSummary::Partial);
    let q = build_signature_return_query(300, &vec![], vec![literal]);
    assert_eq!(q.state, SalsaSignatureReturnResolveStateSummary::Resolved);
}
