use emmylua_query::decls::{SalsaDeclKindSummary, SalsaDeclSummary, SalsaDeclTreeSummary};
use emmylua_query::doc_owner::{
    SalsaBindingTargetSummary, SalsaDocOwnerResolutionSummary, SalsaDocOwnerResolveIndex, SalsaDocOwnerResolveSummary,
};
use emmylua_query::doc_tag::{
    SalsaDocOwnerKindSummary, SalsaDocOwnerSummary, SalsaDocParamSummary, SalsaDocSummary, SalsaDocTypeDefKindSummary,
    SalsaDocTypeDefSummary, SalsaDocTypeTagSummary,
};
use emmylua_query::global_types::{
    build_global_type_query_index, find_global_name_type_info, find_global_type_info, find_member_use_type_info,
    find_name_type_info,
};
use emmylua_query::module::{SalsaGlobalEntrySummary, SalsaGlobalFunctionSummary, SalsaGlobalSummary};
use emmylua_query::property::{
    SalsaPropertyKeySummary, SalsaPropertyOwnerSummary, SalsaPropertySourceSummary, SalsaPropertySummary,
};
use emmylua_query::signature_model::{SalsaSignatureIndexSummary, SalsaSignatureParamSummary, SalsaSignatureSummary};
use emmylua_query::type_candidates::{
    decl_type_to_candidate, dedupe_type_candidates, property_to_candidate, property_to_candidate_with_signatures,
};
use emmylua_query::type_index::{
    build_decl_type_info, build_decl_type_query_index, collect_decl_explicit_type_offsets,
    collect_decl_named_type_names, collect_named_type_names_for_owner, find_signature_initializer_offset,
};
use emmylua_query::type_info::{
    SalsaMemberTypeInfoSummary, SalsaMemberTypeQueryIndex, SalsaSyntaxIdSummary, SalsaTypeCandidateOriginSummary,
    SalsaTypeCandidateSummary,
};
use emmylua_query::uses::{
    SalsaMemberUseSummary, SalsaNameUseResolutionSummary, SalsaNameUseSummary, SalsaUseSiteRoleSummary,
};

fn sid(start: u32, end: u32) -> SalsaSyntaxIdSummary {
    SalsaSyntaxIdSummary { kind: 0x8000, start_offset: start, end_offset: end }
}

fn owner_at(offset: u32) -> SalsaDocOwnerSummary {
    SalsaDocOwnerSummary { kind: SalsaDocOwnerKindSummary::LocalStat, syntax_offset: Some(offset) }
}

fn type_tag(owner: u32, offsets: &[u32]) -> SalsaDocTypeTagSummary {
    SalsaDocTypeTagSummary { owner: owner_at(owner), type_offsets: offsets.to_vec() }
}

fn type_def(owner: u32, name: &str, kind: SalsaDocTypeDefKindSummary) -> SalsaDocTypeDefSummary {
    SalsaDocTypeDefSummary { owner: owner_at(owner), name: name.to_string(), kind }
}

fn doc_param(owner: u32, name: &str, type_offset: Option<u32>) -> SalsaDocParamSummary {
    SalsaDocParamSummary {
        syntax_offset: owner * 100 + type_offset.unwrap_or(0),
        owner: owner_at(owner),
        name: name.to_string(),
        type_offset,
        is_nullable: false,
        is_vararg: false,
    }
}

fn resolve(owner: u32, resolution: SalsaDocOwnerResolutionSummary) -> SalsaDocOwnerResolveSummary {
    SalsaDocOwnerResolveSummary { owner_kind: SalsaDocOwnerKindSummary::LocalStat, owner_offset: owner, resolution }
}

fn decl(id: u32, name: &str, kind: SalsaDeclKindSummary, value: Option<u32>) -> SalsaDeclSummary {
    SalsaDeclSummary {
        id,
        name: name.to_string(),
        kind,
        scope_id: 0,
        start_offset: id * 10,
        value_expr_offset: value,
        value_expr_syntax_id: value.map(|v| sid(v, v + 2)),
        value_result_index: 0,
        source_call_syntax_id: None,
    }
}

fn local() -> SalsaDeclKindSummary {
    SalsaDeclKindSummary::Local { attrib: None }
}

fn signatures() -> SalsaSignatureIndexSummary {
    SalsaSignatureIndexSummary {
        signatures: vec![
            SalsaSignatureSummary {
                syntax_offset: 100,
                owner_offset: 90,
                name: None,
                is_method: false,
                doc_param_offsets: vec![],
                params: vec![
                    SalsaSignatureParamSummary { name: "a".to_string(), syntax_offset: 101, is_vararg: false },
                    SalsaSignatureParamSummary { name: "b".to_string(), syntax_offset: 103, is_vararg: false },
                ],
            },
            SalsaSignatureSummary {
                syntax_offset: 200,
                owner_offset: 190,
                name: None,
                is_method: false,
                params: vec![],
                doc_param_offsets: vec![],
            },
        ],
    }
}

fn doc() -> SalsaDocSummary {
    SalsaDocSummary {
        tags: vec![],
        type_tags: vec![type_tag(10, &[7, 3]), type_tag(20, &[5]), type_tag(10, &[3, 9]), type_tag(30, &[11])],
        params: vec![
            doc_param(90, "a", Some(40)),
            doc_param(90, "b", Some(41)),
            doc_param(90, "a", Some(39)),
            doc_param(90, "a", None),
            doc_param(91, "a", Some(99)),
        ],
        type_defs: vec![
            type_def(10, "Zed", SalsaDocTypeDefKindSummary::Class),
            type_def(10, "Alias", SalsaDocTypeDefKindSummary::Alias),
            type_def(10, "Color", SalsaDocTypeDefKindSummary::Enum),
            type_def(20, "Other", SalsaDocTypeDefKindSummary::Class),
            type_def(10, "Zed", SalsaDocTypeDefKindSummary::Class),
        ],
    }
}

fn resolves() -> SalsaDocOwnerResolveIndex {
    SalsaDocOwnerResolveIndex {
        bindings: vec![
            resolve(10, SalsaDocOwnerResolutionSummary::Decl(1)),
            resolve(20, SalsaDocOwnerResolutionSummary::Decl(2)),
            resolve(
                30,
                SalsaDocOwnerResolutionSummary::Ambiguous(vec![
                    SalsaBindingTargetSummary::Decl(1),
                    SalsaBindingTargetSummary::Decl(2),
                ]),
            ),
        ],
    }
}

#[test]
fn signature_initializer_only_where_a_signature_starts() {
    let sigs = signatures();
    assert_eq!(find_signature_initializer_offset(&sigs, Some(200)), Some(200));
    assert_eq!(find_signature_initializer_offset(&sigs, Some(201)), None);
    assert_eq!(find_signature_initializer_offset(&sigs, None), None);
}

#[test]
fn param_doc_types_come_from_its_signature_param_tags() {
    let d = decl(5, "a", SalsaDeclKindSummary::Param { signature_offset: 100, idx: 0 }, None);
    assert_eq!(collect_decl_explicit_type_offsets(&d, &doc(), &signatures(), &resolves()), vec![39, 40]);
    let b = decl(6, "b", SalsaDeclKindSummary::Param { signature_offset: 100, idx: 1 }, None);
    assert_eq!(collect_decl_explicit_type_offsets(&b, &doc(), &signatures(), &resolves()), vec![41]);
    let out_of_range = decl(7, "c", SalsaDeclKindSummary::Param { signature_offset: 100, idx: 2 }, None);
    assert_eq!(collect_decl_explicit_type_offsets(&out_of_range, &doc(), &signatures(), &resolves()), Vec::<u32>::new());
    let no_sig = decl(8, "a", SalsaDeclKindSummary::Param { signature_offset: 300, idx: 0 }, None);
    assert_eq!(collect_decl_explicit_type_offsets(&no_sig, &doc(), &signatures(), &resolves()), Vec::<u32>::new());
}

#[test]
fn local_doc_types_come_from_type_tags_of_its_documenting_statements() {
    let d = decl(1, "x", local(), Some(50));
    assert_eq!(collect_decl_explicit_type_offsets(&d, &doc(), &signatures(), &resolves()), vec![3, 7, 9]);
    let g = decl(2, "y", SalsaDeclKindSummary::Global, None);
    assert_eq!(collect_decl_explicit_type_offsets(&g, &doc(), &signatures(), &resolves()), vec![5]);
    let this = decl(1, "self", SalsaDeclKindSummary::ImplicitSelf, None);
    assert_eq!(collect_decl_explicit_type_offsets(&this, &doc(), &signatures(), &resolves()), Vec::<u32>::new());
}

#[test]
fn owner_type_names_are_classes_and_enums_sorted_once() {
    assert_eq!(collect_named_type_names_for_owner(10, &doc()), vec!["Color".to_string(), "Zed".to_string()]);
    assert_eq!(collect_named_type_names_for_owner(20, &doc()), vec!["Other".to_string()]);
    assert_eq!(collect_named_type_names_for_owner(99, &doc()), Vec::<String>::new());
}

#[test]
fn decl_type_names_only_for_locals_and_globals() {
    let d = decl(1, "x", local(), None);
    assert_eq!(collect_decl_named_type_names(&d, &doc(), &resolves()), vec!["Color".to_string(), "Zed".to_string()]);
    let p = decl(1, "x", SalsaDeclKindSummary::Param { signature_offset: 100, idx: 0 }, None);
    assert_eq!(collect_decl_named_type_names(&p, &doc(), &resolves()), Vec::<String>::new());
}

#[test]
fn decl_type_info_gathers_every_field() {
    let d = decl(1, "x", local(), Some(200));
    let info = build_decl_type_info(&d, &doc(), &signatures(), &resolves());
    assert_eq!(info.decl_id, 1);
    assert_eq!(info.name, "x");
    assert_eq!(info.explicit_type_offsets, vec![3, 7, 9]);
    assert_eq!(info.named_type_names, vec!["Color".to_string(), "Zed".to_string()]);
    assert_eq!(info.initializer_offset, Some(200));
    assert_eq!(info.value_expr_syntax_id, Some(sid(200, 202)));
    assert_eq!(info.signature_offset, None);
    assert_eq!(info.value_signature_offset, Some(200));

    let p = decl(5, "a", SalsaDeclKindSummary::Param { signature_offset: 100, idx: 0 }, Some(150));
    let pinfo = build_decl_type_info(&p, &doc(), &signatures(), &resolves());
    assert_eq!(pinfo.signature_offset, Some(100));
    assert_eq!(pinfo.value_signature_offset, None);
    assert_eq!(pinfo.explicit_type_offsets, vec![39, 40]);
}

#[test]
fn decl_type_index_keeps_the_tree_order() {
    let tree = SalsaDeclTreeSummary {
        decls: vec![decl(2, "y", SalsaDeclKindSummary::Global, None), decl(1, "x", local(), None)],
        scopes: vec![],
    };
    let index = build_decl_type_query_index(&tree, &doc(), &signatures(), &resolves());
    assert_eq!(index.decls.len(), 2);
    assert_eq!(index.decls[0].decl_id, 2);
    assert_eq!(index.decls[0].explicit_type_offsets, vec![5]);
    assert_eq!(index.decls[1].decl_id, 1);
}

fn property(offset: u32, doc_type: Option<u32>, value: Option<u32>) -> SalsaPropertySummary {
    SalsaPropertySummary {
        syntax_offset: offset,
        owner: SalsaPropertyOwnerSummary::Decl { decl_id: 1 },
        key: SalsaPropertyKeySummary::Name("f".to_string()),
        source: SalsaPropertySourceSummary::Assignment,
        value_expr_syntax_id: value.map(|v| sid(v, v + 1)),
        value_expr_offset: value,
        value_result_index: 2,
        expands_multi_result_tail: false,
        doc_type_offset: doc_type,
        source_call_syntax_id: None,
    }
}

#[test]
fn candidates_from_decls_and_properties() {
    let d = decl(1, "x", local(), Some(200));
    let info = build_decl_type_info(&d, &doc(), &signatures(), &resolves());
    let c = decl_type_to_candidate(&info);
    assert_eq!(c.origin, SalsaTypeCandidateOriginSummary::Decl(1));
    assert_eq!(c.explicit_type_offsets, vec![3, 7, 9]);
    assert_eq!(c.named_type_names, vec!["Color".to_string(), "Zed".to_string()]);
    assert_eq!(c.signature_offset, Some(200));

    let plain = property_to_candidate(property(60, Some(8), Some(200)));
    assert_eq!(plain.origin, SalsaTypeCandidateOriginSummary::Property(60));
    assert_eq!(plain.explicit_type_offsets, vec![8]);
    assert_eq!(plain.value_result_index, 2);
    assert_eq!(plain.signature_offset, None);

    let with_sig = property_to_candidate_with_signatures(property(60, None, Some(200)), &signatures());
    assert_eq!(with_sig.explicit_type_offsets, Vec::<u32>::new());
    assert_eq!(with_sig.initializer_offset, Some(200));
    assert_eq!(with_sig.signature_offset, Some(200));
    let no_sig = property_to_candidate_with_signatures(property(60, None, Some(201)), &signatures());
    assert_eq!(no_sig.signature_offset, None);
}

fn candidate(origin: SalsaTypeCandidateOriginSummary, explicit: &[u32], names: &[&str]) -> SalsaTypeCandidateSummary {
    SalsaTypeCandidateSummary {
        origin,
        explicit_type_offsets: explicit.to_vec(),
        named_type_names: names.iter().map(|n| n.to_string()).collect(),
        initializer_offset: None,
        value_expr_syntax_id: None,
        value_result_index: 0,
        source_call_syntax_id: None,
        signature_offset: None,
    }
}

#[test]
fn dedupe_keeps_first_occurrences_in_order() {
    let a = candidate(SalsaTypeCandidateOriginSummary::Decl(1), &[1], &["A"]);
    let b = candidate(SalsaTypeCandidateOriginSummary::Decl(1), &[1], &["B"]);
    let c = candidate(SalsaTypeCandidateOriginSummary::Property(4), &[], &[]);
    let kept = dedupe_type_candidates(vec![a.clone(), b.clone(), a.clone(), c.clone(), b.clone(), c.clone()]);
    assert_eq!(kept, vec![a, b, c]);
    assert_eq!(dedupe_type_candidates(vec![]), Vec::<SalsaTypeCandidateSummary>::new());
}

fn name_use(name: &str, resolution: SalsaNameUseResolutionSummary) -> SalsaNameUseSummary {
    SalsaNameUseSummary {
        syntax_offset: 77,
        syntax_id: sid(77, 78),
        name: name.to_string(),
        role: SalsaUseSiteRoleSummary::Read,
        resolution,
    }
}

#[test]
fn global_index_is_sorted_by_name_with_entry_then_function_candidates() {
    let tree = SalsaDeclTreeSummary {
        decls: vec![decl(1, "x", local(), None), decl(2, "y", SalsaDeclKindSummary::Global, None)],
        scopes: vec![],
    };
    let decl_types = build_decl_type_query_index(&tree, &doc(), &signatures(), &resolves());
    let globals = SalsaGlobalSummary {
        entries: vec![
            SalsaGlobalEntrySummary { name: "zeta".to_string(), decl_ids: vec![2, 9] },
            SalsaGlobalEntrySummary { name: "alpha".to_string(), decl_ids: vec![1] },
            SalsaGlobalEntrySummary { name: "zeta".to_string(), decl_ids: vec![1] },
            SalsaGlobalEntrySummary { name: "empty".to_string(), decl_ids: vec![9] },
        ],
        functions: vec![
            SalsaGlobalFunctionSummary { name: "zeta".to_string(), decl_id: None, signature_offset: 200 },
            SalsaGlobalFunctionSummary { name: "beta".to_string(), decl_id: None, signature_offset: 100 },
        ],
        variables: vec![],
    };
    let index = build_global_type_query_index(&globals, &decl_types);
    let names: Vec<&str> = index.globals.iter().map(|g| g.name.as_str()).collect();
    assert_eq!(names, vec!["alpha", "beta", "empty", "zeta"]);
    let zeta = find_global_type_info(&index, &"zeta".to_string()).unwrap();
    let origins: Vec<SalsaTypeCandidateOriginSummary> = zeta.candidates.iter().map(|c| c.origin).collect();
    assert_eq!(
        origins,
        vec![
            SalsaTypeCandidateOriginSummary::Decl(2),
            SalsaTypeCandidateOriginSummary::Decl(1),
            SalsaTypeCandidateOriginSummary::GlobalFunction(200),
        ]
    );
    assert_eq!(zeta.candidates[2].signature_offset, Some(200));
    assert!(find_global_type_info(&index, &"empty".to_string()).unwrap().candidates.is_empty());
    assert!(find_global_type_info(&index, &"missing".to_string()).is_none());

    let global_use = name_use("beta", SalsaNameUseResolutionSummary::Global);
    assert_eq!(find_global_name_type_info(&index, &global_use).unwrap().candidates.len(), 1);
    let local_use = name_use("beta", SalsaNameUseResolutionSummary::LocalDecl(1));
    assert!(find_global_name_type_info(&index, &local_use).is_none());
}

#[test]
fn name_type_info_follows_local_resolution() {
    let tree = SalsaDeclTreeSummary { decls: vec![decl(1, "x", local(), None)], scopes: vec![] };
    let decl_types = build_decl_type_query_index(&tree, &doc(), &signatures(), &resolves());
    let local_use = name_use("x", SalsaNameUseResolutionSummary::LocalDecl(1));
    let info = find_name_type_info(&decl_types, &local_use);
    assert_eq!(info.name_use, local_use);
    assert_eq!(info.decl_type.unwrap().explicit_type_offsets, vec![3, 7, 9]);
    let unknown = name_use("q", SalsaNameUseResolutionSummary::LocalDecl(5));
    assert!(find_name_type_info(&decl_types, &unknown).decl_type.is_none());
    let global_use = name_use("x", SalsaNameUseResolutionSummary::Global);
    assert!(find_name_type_info(&decl_types, &global_use).decl_type.is_none());
}

#[test]
fn member_use_type_info_by_target() {
    let index = SalsaMemberTypeQueryIndex {
        members: vec![
            SalsaMemberTypeInfoSummary { target: 3, candidates: vec![] },
            SalsaMemberTypeInfoSummary {
                target: 4,
                candidates: vec![candidate(SalsaTypeCandidateOriginSummary::Member(4), &[], &[])],
            },
        ],
    };
    let member_use = |target: u32| SalsaMemberUseSummary {
        syntax_offset: 1,
        syntax_id: sid(1, 2),
        role: SalsaUseSiteRoleSummary::Read,
        target,
    };
    assert_eq!(find_member_use_type_info(&index, &member_use(4)).unwrap().candidates.len(), 1);
    assert!(find_member_use_type_info(&index, &member_use(5)).is_none());
}

#[test]
fn member_full_names_join_root_segments_and_member_with_dots() {
    use_member_full_name();
}

fn use_member_full_name() {
    let global = emmylua_query::members::SalsaMemberTargetSummary {
        root: emmylua_query::members::SalsaMemberRootSummary::Global(emmylua_query::members::SalsaGlobalRootSummary::Name(
            "a".to_string(),
        )),
        owner_segments: vec!["b".to_string(), "c".to_string()],
        member_name: "d".to_string(),
    };
    assert_eq!(emmylua_query::members::build_member_full_name(&global), "a.b.c.d");
    let env = emmylua_query::members::SalsaMemberTargetSummary {
        root: emmylua_query::members::SalsaMemberRootSummary::Global(emmylua_query::members::SalsaGlobalRootSummary::Env),
        owner_segments: vec![],
        member_name: "x".to_string(),
    };
    assert_eq!(emmylua_query::members::build_member_full_name(&env), "_ENV.x");
    let local = emmylua_query::members::SalsaMemberTargetSummary {
        root: emmylua_query::members::SalsaMemberRootSummary::LocalDecl { name: "t".to_string(), decl_id: 1 },
        owner_segments: vec!["f".to_string()],
        member_name: String::new(),
    };
    assert_eq!(emmylua_query::members::build_member_full_name(&local), "t.f");
}
