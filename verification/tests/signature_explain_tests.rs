use emmylua_query::doc_tag::{SalsaDocOwnerKindSummary, SalsaDocOwnerSummary, SalsaDocParamSummary};
use emmylua_query::lexical::SalsaLexicalUseIndex;
use emmylua_query::doc_type::{SalsaDocTypeLoweredIndex, SalsaDocTypeLoweredKind, SalsaDocTypeLoweredNode};
use emmylua_query::members::{
    SalsaGlobalRootSummary, SalsaMemberIndexSummary, SalsaMemberRootSummary, SalsaMemberSummary,
    SalsaMemberTargetSummary,
};
use emmylua_query::signature_explain::{
    SalsaSignatureExplainSummary, SalsaSignatureParamExplainSummary, build_param_explain, build_signature_explain,
    build_signature_explains, collect_candidate_signature_offsets, find_signature_explain_at, resolve_call_signatures,
    select_best_candidate_signature_offsets, signature_call_adjusted_arg_count, signature_call_candidate_score,
    signature_call_doc_param_quality, signature_call_param_index, signature_type_is_any_like,
};
use emmylua_query::signature_model::{
    SalsaDocTypeRef, SalsaSignatureIndexSummary, SalsaSignatureParamSummary, SalsaSignatureSummary,
    SalsaSignatureTypeExplainSummary,
};
use emmylua_query::type_info::SalsaSyntaxIdSummary;
use emmylua_query::uses::{SalsaCallKindSummary, SalsaCallUseSummary};

fn sid(start: u32, end: u32) -> SalsaSyntaxIdSummary {
    SalsaSyntaxIdSummary { kind: 0x8000, start_offset: start, end_offset: end }
}

fn doc_param(offset: u32, name: &str, type_offset: Option<u32>, nullable: bool, vararg: bool) -> SalsaDocParamSummary {
    SalsaDocParamSummary {
        syntax_offset: offset,
        owner: SalsaDocOwnerSummary { kind: SalsaDocOwnerKindSummary::FuncStat, syntax_offset: Some(1) },
        name: name.to_string(),
        type_offset,
        is_nullable: nullable,
        is_vararg: vararg,
    }
}

fn param(name: &str, offset: u32, vararg: bool) -> SalsaSignatureParamSummary {
    SalsaSignatureParamSummary { name: name.to_string(), syntax_offset: offset, is_vararg: vararg }
}

fn signature(offset: u32, name: Option<&str>, is_method: bool, params: Vec<SalsaSignatureParamSummary>, docs: Vec<u32>) -> SalsaSignatureSummary {
    SalsaSignatureSummary {
        syntax_offset: offset,
        owner_offset: offset,
        name: name.map(|n| n.to_string()),
        is_method,
        params,
        doc_param_offsets: docs,
    }
}

fn explained_param(name: &str, doc_type: Option<u32>, nullable: bool, vararg: bool) -> SalsaSignatureParamExplainSummary {
    SalsaSignatureParamExplainSummary {
        name: name.to_string(),
        syntax_offset: 0,
        is_vararg: vararg,
        doc_param_offset: doc_type,
        doc_type: doc_type.map(|t| SalsaSignatureTypeExplainSummary { type_ref: SalsaDocTypeRef::Node(t) }),
        is_nullable: nullable,
    }
}

fn explain(offset: u32, name: &str, is_method: bool, params: Vec<SalsaSignatureParamExplainSummary>) -> SalsaSignatureExplainSummary {
    SalsaSignatureExplainSummary { signature_offset: offset, name: Some(name.to_string()), is_method, params }
}

fn call(arg_count: usize, colon: bool) -> SalsaCallUseSummary {
    SalsaCallUseSummary {
        syntax_offset: 500,
        syntax_id: sid(500, 520),
        kind: SalsaCallKindSummary::Normal,
        is_colon_call: colon,
        arg_count,
        require_path: None,
        callee_name: Some("f".to_string()),
        callee_member: None,
    }
}

fn lowered(nodes: Vec<(u32, SalsaDocTypeLoweredKind)>) -> SalsaDocTypeLoweredIndex {
    SalsaDocTypeLoweredIndex {
        types: nodes
            .into_iter()
            .map(|(key, kind)| SalsaDocTypeLoweredNode { key, syntax_offset: key, syntax_id: sid(key, key + 3), kind })
            .collect(),
    }
}

fn name_kind(n: &str) -> SalsaDocTypeLoweredKind {
    SalsaDocTypeLoweredKind::Name { name: n.to_string() }
}

#[test]
fn param_explain_takes_the_first_tag_that_names_the_param() {
    let docs = vec![
        doc_param(10, "b", Some(40), false, false),
        doc_param(20, "a", Some(50), true, false),
        doc_param(30, "a", Some(60), false, false),
    ];
    let sig = signature(1, Some("f"), false, vec![param("a", 3, false)], vec![10, 20, 30]);
    let r = build_param_explain(&sig.params[0], &sig, &docs);
    assert_eq!(r.name, "a");
    assert_eq!(r.syntax_offset, 3);
    assert_eq!(r.doc_param_offset, Some(20));
    assert_eq!(r.doc_type, Some(SalsaSignatureTypeExplainSummary { type_ref: SalsaDocTypeRef::Node(50) }));
    assert!(r.is_nullable);
}

#[test]
fn param_explain_matches_varargs_and_leaves_undocumented_params_bare() {
    let docs = vec![doc_param(10, "rest", None, false, true)];
    let sig = signature(1, Some("f"), false, vec![param("x", 3, false), param("...", 5, true)], vec![10]);
    let e = build_signature_explain(&sig, &docs);
    assert_eq!(e.signature_offset, 1);
    assert_eq!(e.name, Some("f".to_string()));
    assert_eq!(e.params.len(), 2);
    assert_eq!(e.params[0].doc_param_offset, None);
    assert_eq!(e.params[0].doc_type, None);
    assert!(!e.params[0].is_nullable);
    assert_eq!(e.params[1].doc_param_offset, Some(10));
    assert_eq!(e.params[1].doc_type, Some(SalsaSignatureTypeExplainSummary { type_ref: SalsaDocTypeRef::Incomplete }));
}

#[test]
fn signature_explains_keep_order_and_are_found_by_offset() {
    let index = SalsaSignatureIndexSummary {
        signatures: vec![
            signature(7, Some("g"), true, vec![], vec![]),
            signature(3, None, false, vec![param("a", 4, false)], vec![]),
        ],
    };
    let all = build_signature_explains(&index, &vec![]);
    assert_eq!(all.iter().map(|e| e.signature_offset).collect::<Vec<_>>(), vec![7, 3]);
    assert!(all[0].is_method);
    assert_eq!(find_signature_explain_at(&all, 3).map(|e| e.params.len()), Some(1));
    assert!(find_signature_explain_at(&all, 4).is_none());
}

#[test]
fn any_like_doc_types_ignore_case() {
    let lowered_types = lowered(vec![
        (1, name_kind("ANY")),
        (2, name_kind("Unknown")),
        (3, name_kind("string")),
        (4, SalsaDocTypeLoweredKind::Unknown),
        (5, name_kind("anyx")),
    ]);
    let t = |k: u32| SalsaSignatureTypeExplainSummary { type_ref: SalsaDocTypeRef::Node(k) };
    assert!(signature_type_is_any_like(&t(1), &lowered_types));
    assert!(signature_type_is_any_like(&t(2), &lowered_types));
    assert!(!signature_type_is_any_like(&t(3), &lowered_types));
    assert!(signature_type_is_any_like(&t(4), &lowered_types));
    assert!(!signature_type_is_any_like(&t(5), &lowered_types));
    assert!(!signature_type_is_any_like(&t(9), &lowered_types));
    let incomplete = SalsaSignatureTypeExplainSummary { type_ref: SalsaDocTypeRef::Incomplete };
    assert!(!signature_type_is_any_like(&incomplete, &lowered_types));
}

#[test]
fn argument_counts_follow_the_colon_shape() {
    let method = explain(1, "m", true, vec![]);
    let plain = explain(2, "f", false, vec![]);
    assert_eq!(signature_call_adjusted_arg_count(&method, false, 3), 2);
    assert_eq!(signature_call_adjusted_arg_count(&method, false, 0), 0);
    assert_eq!(signature_call_adjusted_arg_count(&method, true, 3), 3);
    assert_eq!(signature_call_adjusted_arg_count(&plain, true, 3), 4);
    assert_eq!(signature_call_adjusted_arg_count(&plain, false, 3), 3);
    assert_eq!(signature_call_param_index(&method, false, 0), None);
    assert_eq!(signature_call_param_index(&method, false, 2), Some(1));
    assert_eq!(signature_call_param_index(&plain, true, 0), Some(1));
    assert_eq!(signature_call_param_index(&plain, false, 2), Some(2));
}

#[test]
fn doc_param_quality_counts_typed_and_specific_params() {
    let lowered_types = lowered(vec![(1, name_kind("any")), (2, name_kind("number"))]);
    let sig = explain(
        1,
        "f",
        false,
        vec![
            explained_param("a", Some(1), false, false),
            explained_param("b", Some(2), false, false),
            explained_param("c", None, false, false),
            explained_param("d", Some(2), false, false),
        ],
    );
    assert_eq!(signature_call_doc_param_quality(&sig, 3, &lowered_types), (2, 1));
    assert_eq!(signature_call_doc_param_quality(&sig, 4, &lowered_types), (3, 2));
    assert_eq!(signature_call_doc_param_quality(&sig, 0, &lowered_types), (0, 0));
}

#[test]
fn candidate_scores_rank_how_arguments_fit() {
    let lowered_types = lowered(vec![(1, name_kind("number"))]);
    let two = explain(1, "f", false, vec![explained_param("a", Some(1), false, false), explained_param("b", None, false, false)]);
    assert_eq!(signature_call_candidate_score(&two, Some(&call(2, false)), &lowered_types), Some((6, 1, 1, 1, 1, 2)));
    assert_eq!(signature_call_candidate_score(&two, Some(&call(1, false)), &lowered_types), None);
    assert_eq!(signature_call_candidate_score(&two, Some(&call(3, false)), &lowered_types), None);
    assert_eq!(signature_call_candidate_score(&two, None, &lowered_types), None);
    let optional = explain(2, "f", false, vec![explained_param("a", None, false, false), explained_param("b", None, true, false)]);
    assert_eq!(signature_call_candidate_score(&optional, Some(&call(1, false)), &lowered_types), Some((5, 1, 0, 0, 0, 1)));
    let vararg = explain(3, "f", false, vec![explained_param("a", None, false, false), explained_param("...", None, false, true)]);
    assert_eq!(signature_call_candidate_score(&vararg, Some(&call(2, false)), &lowered_types), Some((4, 1, 1, 0, 0, 1)));
    assert_eq!(signature_call_candidate_score(&vararg, Some(&call(1, false)), &lowered_types), Some((3, 1, 0, 0, 0, 1)));
    assert_eq!(signature_call_candidate_score(&vararg, Some(&call(5, false)), &lowered_types), Some((2, 1, 0, 0, 0, 1)));
    let method = explain(4, "f", true, vec![explained_param("a", None, false, false)]);
    assert_eq!(signature_call_candidate_score(&method, Some(&call(2, false)), &lowered_types), Some((6, 0, 1, 0, 0, 1)));
    assert_eq!(signature_call_candidate_score(&method, Some(&call(1, true)), &lowered_types), Some((6, 1, 1, 0, 0, 1)));
}

#[test]
fn best_candidates_keep_ties_in_order() {
    let lowered_types = lowered(vec![]);
    let sigs = vec![
        explain(10, "f", false, vec![explained_param("a", None, false, false)]),
        explain(20, "f", false, vec![explained_param("a", None, false, false), explained_param("b", None, true, false)]),
        explain(30, "f", false, vec![explained_param("a", None, false, false)]),
    ];
    let c = call(1, false);
    assert_eq!(select_best_candidate_signature_offsets(&vec![10, 20, 30], Some(&c), &sigs, &lowered_types), vec![10, 30]);
    assert_eq!(select_best_candidate_signature_offsets(&vec![20, 30], Some(&c), &sigs, &lowered_types), vec![30]);
}

#[test]
fn best_candidates_fall_back_to_all_when_none_scores() {
    let lowered_types = lowered(vec![]);
    let sigs = vec![explain(10, "f", false, vec![explained_param("a", None, false, false)])];
    let c = call(4, false);
    assert_eq!(select_best_candidate_signature_offsets(&vec![10, 99], Some(&c), &sigs, &lowered_types), vec![10, 99]);
    assert_eq!(select_best_candidate_signature_offsets(&vec![10, 99], None, &sigs, &lowered_types), vec![10, 99]);
    assert_eq!(select_best_candidate_signature_offsets(&vec![], Some(&c), &sigs, &lowered_types), Vec::<u32>::new());
}

#[test]
fn candidates_are_found_by_the_called_name() {
    let sigs = vec![explain(10, "f", false, vec![]), explain(20, "M.a", false, vec![]), explain(30, "f", false, vec![])];
    let members = SalsaMemberIndexSummary {
        members: vec![SalsaMemberSummary {
            target: SalsaMemberTargetSummary {
                root: SalsaMemberRootSummary::Global(SalsaGlobalRootSummary::Name("M".to_string())),
                owner_segments: vec![],
                member_name: "a".to_string(),
            },
            target_handle: 7,
            value_expr_offset: None,
        }],
    };
    let by_name = call(0, false);
    assert_eq!(collect_candidate_signature_offsets(Some(&by_name), &sigs, &members), vec![10, 30]);
    let mut by_member = call(0, false);
    by_member.callee_member = Some(7);
    assert_eq!(collect_candidate_signature_offsets(Some(&by_member), &sigs, &members), vec![20]);
    by_member.callee_member = Some(8);
    assert!(collect_candidate_signature_offsets(Some(&by_member), &sigs, &members).is_empty());
    assert!(collect_candidate_signature_offsets(None, &sigs, &members).is_empty());
}

fn lexical_with_calls(calls: Vec<SalsaCallUseSummary>) -> SalsaLexicalUseIndex {
    SalsaLexicalUseIndex {
        uses: vec![],
        all_name_uses: vec![],
        decl_name_uses: vec![],
        global_name_uses: vec![],
        member_uses: vec![],
        call_uses: calls,
    }
}

#[test]
fn a_call_resolves_to_its_only_best_signature() {
    let lowered_types = lowered(vec![]);
    let sigs = vec![
        explain(10, "f", false, vec![explained_param("a", None, false, false)]),
        explain(20, "f", false, vec![explained_param("a", None, false, false), explained_param("b", None, false, false)]),
        explain(30, "g", false, vec![explained_param("a", None, false, false)]),
    ];
    let members = SalsaMemberIndexSummary { members: vec![] };
    let uses = lexical_with_calls(vec![call(2, false)]);
    let (cands, resolved) = resolve_call_signatures(&uses, 500, &sigs, &members, &lowered_types);
    assert_eq!(cands, vec![20]);
    assert_eq!(resolved, Some(20));
}

#[test]
fn a_call_with_tied_or_no_signatures_does_not_resolve() {
    let lowered_types = lowered(vec![]);
    let sigs = vec![
        explain(10, "f", false, vec![explained_param("a", None, false, false)]),
        explain(20, "f", false, vec![explained_param("b", None, false, false)]),
    ];
    let members = SalsaMemberIndexSummary { members: vec![] };
    let uses = lexical_with_calls(vec![call(1, false)]);
    assert_eq!(resolve_call_signatures(&uses, 500, &sigs, &members, &lowered_types), (vec![10, 20], None));
    assert_eq!(resolve_call_signatures(&uses, 501, &sigs, &members, &lowered_types), (vec![], None));
}
