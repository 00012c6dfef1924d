use emmylua_query::assignment_flow::{SalsaBlockStatKindSummary, SalsaBlockStatSummary, SalsaBlockSummary};
use emmylua_query::assignments::{SalsaLocalAssignmentQueryIndex, SalsaLocalAssignmentSummary};
use emmylua_query::decls::{SalsaDeclTreeSummary, SalsaScopeSummary};
use emmylua_query::doc_type::{SalsaDocTypeIndexSummary, build_lowered_doc_type_index};
use emmylua_query::narrow::SalsaTypeNarrowSummary;
use emmylua_query::narrow_sites::SalsaNarrowSiteIndexSummary;
use emmylua_query::program_point::{
    SalsaCallReturnOverloadIndex, SalsaCallReturnOverloadsSummary, build_return_name_type, collect_return_slot_offsets,
    collect_signature_return_slot_offsets, find_name_type_at_program_point,
};
use emmylua_query::property::SalsaPropertyQueryIndex;
use emmylua_query::signature_model::{
    SalsaCallExplainSummary, SalsaDocTypeRef, SalsaSignatureExplainIndex, SalsaSignatureReturnExplainSummary,
    SalsaSignatureReturnItemExplainSummary, SalsaSignatureTypeExplainSummary,
};
use emmylua_query::type_info::{
    SalsaDeclTypeInfoSummary, SalsaDeclTypeQueryIndex, SalsaSyntaxIdSummary, SalsaTypeCandidateOriginSummary,
    SalsaTypeCandidateSummary,
};
use emmylua_query::uses::{SalsaNameUseResolutionSummary, SalsaNameUseSummary, SalsaUseSiteIndexSummary, SalsaUseSiteRoleSummary};

fn sid(start: u32, end: u32) -> SalsaSyntaxIdSummary {
    SalsaSyntaxIdSummary { kind: 0x8000, start_offset: start, end_offset: end }
}

fn asg(decl_id: u32, offset: u32, local: bool, value: Option<u32>) -> SalsaLocalAssignmentSummary {
    SalsaLocalAssignmentSummary {
        decl_id,
        syntax_offset: offset,
        is_local_declaration: local,
        value_expr_syntax_id: None,
        value_expr_offset: value,
        value_result_index: 0,
        source_decl_id: None,
        source_call_syntax_id: None,
    }
}

fn assignments() -> SalsaLocalAssignmentQueryIndex {
    let mut x = asg(1, 5, true, Some(12));
    x.source_call_syntax_id = Some(sid(10, 15));
    let mut y = asg(2, 20, true, Some(30));
    y.source_decl_id = Some(1);
    let z = asg(3, 40, true, Some(45));
    let mut a = asg(4, 50, false, Some(51));
    a.source_decl_id = Some(5);
    let mut b = asg(5, 52, false, Some(53));
    b.source_decl_id = Some(4);
    let w = asg(6, 55, false, None);
    SalsaLocalAssignmentQueryIndex { assignments: vec![x, y, z, a, b, w] }
}

fn root() -> SalsaBlockSummary {
    let stat = |offset: u32| SalsaBlockStatSummary {
        syntax_offset: offset,
        end_offset: offset + 1,
        kind: SalsaBlockStatKindSummary::Assign,
        nested_blocks: vec![],
    };
    SalsaBlockSummary { start_offset: 0, end_offset: 100, stats: vec![stat(5), stat(20), stat(40), stat(50), stat(52), stat(55)] }
}

fn untyped_decl(decl_id: u32) -> SalsaDeclTypeInfoSummary {
    SalsaDeclTypeInfoSummary {
        decl_id,
        name: "y".to_string(),
        explicit_type_offsets: vec![],
        named_type_names: vec![],
        initializer_offset: Some(30),
        value_expr_syntax_id: None,
        value_result_index: 0,
        source_call_syntax_id: None,
        signature_offset: None,
        value_signature_offset: None,
    }
}

fn call(rows: &[&[u32]]) -> SalsaCallExplainSummary {
    SalsaCallExplainSummary {
        syntax_offset: 10,
        syntax_id: sid(10, 15),
        candidate_signature_offsets: vec![70],
        resolved_signature_offset: Some(70),
        returns: rows
            .iter()
            .map(|row| SalsaSignatureReturnExplainSummary {
                syntax_offset: 90,
                items: row
                    .iter()
                    .map(|t| SalsaSignatureReturnItemExplainSummary {
                        doc_type: SalsaSignatureTypeExplainSummary { type_ref: SalsaDocTypeRef::Node(*t) },
                    })
                    .collect(),
            })
            .collect(),
    }
}

fn name_use(decl: Option<u32>, offset: u32) -> SalsaNameUseSummary {
    SalsaNameUseSummary {
        syntax_offset: offset,
        syntax_id: sid(offset, offset + 1),
        name: "n".to_string(),
        role: SalsaUseSiteRoleSummary::Read,
        resolution: match decl {
            Some(d) => SalsaNameUseResolutionSummary::LocalDecl(d),
            None => SalsaNameUseResolutionSummary::Global,
        },
    }
}

fn tree() -> SalsaDeclTreeSummary {
    SalsaDeclTreeSummary { decls: vec![], scopes: vec![SalsaScopeSummary { id: 0, start_offset: 0, end_offset: 100, parent: None }] }
}

fn no_sites() -> SalsaNarrowSiteIndexSummary {
    SalsaNarrowSiteIndexSummary { blocks: vec![], if_sites: vec![], guard_sites: vec![], assert_sites: vec![] }
}

fn candidates(decl: Option<u32>, overloads: Vec<Vec<u32>>, narrows: Vec<SalsaTypeNarrowSummary>) -> Vec<SalsaTypeCandidateSummary> {
    let doc_types = SalsaDocTypeIndexSummary { types: vec![] };
    let lowered = build_lowered_doc_type_index(&doc_types);
    let overload_index = SalsaCallReturnOverloadIndex {
        calls: vec![SalsaCallReturnOverloadsSummary { call_syntax_id: sid(10, 15), rows: overloads }],
    };
    find_name_type_at_program_point(
        &SalsaDeclTypeQueryIndex { decls: vec![untyped_decl(2)] },
        &name_use(decl, 60),
        60,
        &assignments(),
        &root(),
        &SalsaPropertyQueryIndex { properties: vec![] },
        &doc_types,
        &SalsaSignatureExplainIndex { calls: vec![call(&[&[50, 51]])] },
        &overload_index,
        &tree(),
        &no_sites(),
        &lowered,
        &narrows,
    )
    .candidates
}

#[test]
fn a_call_result_gives_the_doc_types_of_its_return_slot() {
    let c = candidates(Some(1), vec![], vec![]);
    assert_eq!(c.len(), 1);
    assert_eq!(c[0].origin, SalsaTypeCandidateOriginSummary::Assignment(5));
    assert_eq!(c[0].explicit_type_offsets, vec![50]);
    assert_eq!(c[0].signature_offset, Some(70));
    assert_eq!(c[0].initializer_offset, Some(12));
}

#[test]
fn overload_rows_take_the_place_of_the_return_rows() {
    let c = candidates(Some(1), vec![vec![62, 1], vec![60], vec![62]], vec![]);
    assert_eq!(c[0].explicit_type_offsets, vec![60, 62]);
}

#[test]
fn an_untyped_local_copying_another_takes_its_candidates() {
    let c = candidates(Some(2), vec![], vec![]);
    assert_eq!(c.len(), 1);
    assert_eq!(c[0].origin, SalsaTypeCandidateOriginSummary::Assignment(20));
    assert_eq!(c[0].explicit_type_offsets, vec![50]);
    assert_eq!(c[0].initializer_offset, Some(30));
    assert_eq!(c[0].signature_offset, Some(70));
}

#[test]
fn a_plain_value_is_its_own_candidate_and_globals_have_none() {
    let c = candidates(Some(3), vec![], vec![]);
    assert_eq!(c.len(), 1);
    assert_eq!(c[0].origin, SalsaTypeCandidateOriginSummary::Assignment(40));
    assert!(c[0].explicit_type_offsets.is_empty());
    assert_eq!(c[0].initializer_offset, Some(45));
    assert!(candidates(None, vec![], vec![]).is_empty());
}

#[test]
fn locals_copying_each_other_stop_where_the_chase_comes_back() {
    let c = candidates(Some(4), vec![], vec![]);
    assert_eq!(c.len(), 1);
    assert_eq!(c[0].origin, SalsaTypeCandidateOriginSummary::Assignment(50));
    assert_eq!(c[0].initializer_offset, Some(51));
    assert!(c[0].explicit_type_offsets.is_empty());
}

#[test]
fn narrowing_drops_candidates_that_say_nothing() {
    let c = candidates(Some(1), vec![], vec![SalsaTypeNarrowSummary::Truthy]);
    assert_eq!(c.len(), 1);
    assert_eq!(c[0].explicit_type_offsets, vec![50]);
    assert!(candidates(Some(6), vec![], vec![]).len() == 1);
    assert!(candidates(Some(6), vec![], vec![SalsaTypeNarrowSummary::Truthy]).is_empty());
}

#[test]
fn return_slots_collect_distinct_doc_types_in_order() {
    let rows = vec![vec![3, 1], vec![2], vec![5, 1]];
    assert_eq!(collect_return_slot_offsets(&rows, 0), vec![2, 3, 5]);
    assert_eq!(collect_return_slot_offsets(&rows, 1), vec![1]);
    assert!(collect_return_slot_offsets(&rows, 2).is_empty());
    let c = call(&[&[7, 4], &[4]]);
    assert_eq!(collect_signature_return_slot_offsets(&c.returns, 0), vec![4, 7]);
    assert_eq!(collect_signature_return_slot_offsets(&c.returns, 1), vec![4]);
}

#[test]
fn a_returned_name_is_read_where_it_is_returned() {
    let doc_types = SalsaDocTypeIndexSummary { types: vec![] };
    let lowered = build_lowered_doc_type_index(&doc_types);
    let sites = SalsaUseSiteIndexSummary { names: vec![name_use(Some(1), 60)], members: vec![], calls: vec![] };
    let build = |offset: u32| {
        build_return_name_type(
            offset,
            &sites,
            &SalsaDeclTypeQueryIndex { decls: vec![] },
            &assignments(),
            &root(),
            &SalsaPropertyQueryIndex { properties: vec![] },
            &doc_types,
            &SalsaSignatureExplainIndex { calls: vec![call(&[&[50]])] },
            &SalsaCallReturnOverloadIndex { calls: vec![] },
            &tree(),
            &no_sites(),
            &lowered,
        )
    };
    let found = build(60).expect("a name is used there");
    assert_eq!(found.candidates.len(), 1);
    assert_eq!(found.candidates[0].explicit_type_offsets, vec![50]);
    assert!(build(61).is_none());
}

#[test]
fn rows_that_fit_the_other_results_of_a_call_narrow_each_result() {
    let mut a = asg(7, 80, true, Some(81));
    a.source_call_syntax_id = Some(sid(81, 85));
    let mut b = asg(8, 80, true, Some(81));
    b.source_call_syntax_id = Some(sid(81, 85));
    b.value_result_index = 1;
    let stat = SalsaBlockStatSummary { syntax_offset: 80, end_offset: 86, kind: SalsaBlockStatKindSummary::Assign, nested_blocks: vec![] };
    let root = SalsaBlockSummary { start_offset: 0, end_offset: 100, stats: vec![stat] };
    let mut explain = call(&[&[90]]);
    explain.syntax_offset = 81;
    explain.syntax_id = sid(81, 85);
    explain.resolved_signature_offset = Some(71);
    let doc_types = SalsaDocTypeIndexSummary { types: vec![] };
    let lowered = build_lowered_doc_type_index(&doc_types);
    let read = |rows: Vec<Vec<u32>>, with_sibling: bool| {
        let assignments = SalsaLocalAssignmentQueryIndex { assignments: if with_sibling { vec![a, b] } else { vec![a] } };
        find_name_type_at_program_point(
            &SalsaDeclTypeQueryIndex { decls: vec![] },
            &name_use(Some(7), 90),
            90,
            &assignments,
            &root,
            &SalsaPropertyQueryIndex { properties: vec![] },
            &doc_types,
            &SalsaSignatureExplainIndex { calls: vec![explain.clone()] },
            &SalsaCallReturnOverloadIndex {
                calls: vec![SalsaCallReturnOverloadsSummary { call_syntax_id: sid(81, 85), rows }],
            },
            &tree(),
            &no_sites(),
            &lowered,
            &vec![],
        )
        .candidates
    };
    let both = read(vec![vec![60, 70], vec![61]], true);
    assert_eq!(both.len(), 1);
    assert_eq!(both[0].explicit_type_offsets, vec![60]);
    assert_eq!(both[0].signature_offset, Some(71));
    assert_eq!(read(vec![vec![60, 70], vec![61]], false)[0].explicit_type_offsets, vec![60, 61]);
    assert_eq!(read(vec![vec![61]], true)[0].explicit_type_offsets, vec![61]);
    assert_eq!(read(vec![], true)[0].explicit_type_offsets, vec![90]);
}

#[test]
fn a_local_with_a_declared_type_keeps_it_over_what_it_copies() {
    let doc_types = SalsaDocTypeIndexSummary { types: vec![] };
    let lowered = build_lowered_doc_type_index(&doc_types);
    let mut typed = untyped_decl(2);
    typed.explicit_type_offsets = vec![5];
    let c = find_name_type_at_program_point(
        &SalsaDeclTypeQueryIndex { decls: vec![typed] },
        &name_use(Some(2), 60),
        60,
        &assignments(),
        &root(),
        &SalsaPropertyQueryIndex { properties: vec![] },
        &doc_types,
        &SalsaSignatureExplainIndex { calls: vec![call(&[&[50]])] },
        &SalsaCallReturnOverloadIndex { calls: vec![] },
        &tree(),
        &no_sites(),
        &lowered,
        &vec![],
    )
    .candidates;
    assert_eq!(c.len(), 1);
    assert_eq!(c[0].origin, SalsaTypeCandidateOriginSummary::Decl(2));
    assert_eq!(c[0].explicit_type_offsets, vec![5]);
}
