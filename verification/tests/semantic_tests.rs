use emmylua_query::doc_owner::{
    SalsaBindingTargetSummary, SalsaDocOwnerBindingIndexSummary, SalsaDocOwnerBindingSummary,
    SalsaDocOwnerResolutionSummary, build_doc_owner_resolve_index, collect_doc_owner_resolves_for_decl,
    collect_doc_owner_resolves_for_member, collect_doc_owner_resolves_for_signature, find_doc_owner_resolve_at,
    resolve_doc_owner_binding,
};
use emmylua_query::doc_tag::{
    SalsaDocOwnerKindSummary, SalsaDocOwnerSummary, SalsaDocTagPropertyEntrySummary, SalsaDocTagPropertySummary,
};
use emmylua_query::lexical::build_lexical_use_index;
use emmylua_query::module::{
    SalsaExportTargetSummary, SalsaGlobalFunctionSummary, SalsaModuleExportSummary, SalsaModuleSummary,
};
use emmylua_query::property::{
    SalsaPropertyIndexSummary, SalsaPropertyKeySummary, SalsaPropertyOwnerSummary, SalsaPropertySourceSummary,
    SalsaPropertySummary,
};
use emmylua_query::semantic::{
    SalsaSemanticTargetSummary, build_semantic_value_shell_from_module_export, build_single_file_semantic_summary,
    collect_semantic_targets, find_module_export_semantic, find_semantic_decl, find_semantic_member,
    find_semantic_signature, semantic_resolve_state_from_module_export, semantic_targets_from_module_export,
};
use emmylua_query::semantic_solver::SalsaSemanticResolveStateSummary;
use emmylua_query::type_info::SalsaSyntaxIdSummary;
use emmylua_query::uses::{SalsaCallKindSummary, SalsaCallUseSummary, SalsaUseSiteIndexSummary};

use SalsaBindingTargetSummary as B;
use SalsaSemanticTargetSummary as T;

fn binding(kind: SalsaDocOwnerKindSummary, offset: u32, targets: Vec<SalsaBindingTargetSummary>) -> SalsaDocOwnerBindingSummary {
    SalsaDocOwnerBindingSummary { owner_kind: kind, owner_offset: offset, targets }
}

fn bindings() -> SalsaDocOwnerBindingIndexSummary {
    SalsaDocOwnerBindingIndexSummary {
        bindings: vec![
            binding(SalsaDocOwnerKindSummary::LocalStat, 5, vec![B::Decl(1)]),
            binding(SalsaDocOwnerKindSummary::FuncStat, 20, vec![B::Signature(20)]),
            binding(SalsaDocOwnerKindSummary::AssignStat, 30, vec![B::Member(7)]),
            binding(SalsaDocOwnerKindSummary::LocalStat, 40, vec![]),
            binding(SalsaDocOwnerKindSummary::LocalStat, 50, vec![B::Decl(1), B::Decl(2)]),
            binding(SalsaDocOwnerKindSummary::LocalStat, 5, vec![B::Decl(1)]),
        ],
    }
}

#[test]
fn doc_owner_resolution_by_number_of_targets() {
    let index = build_doc_owner_resolve_index(&bindings());
    assert_eq!(index.bindings.len(), 6);
    assert_eq!(index.bindings[0].resolution, SalsaDocOwnerResolutionSummary::Decl(1));
    assert_eq!(index.bindings[1].resolution, SalsaDocOwnerResolutionSummary::Signature(20));
    assert_eq!(index.bindings[2].resolution, SalsaDocOwnerResolutionSummary::Member(7));
    assert_eq!(index.bindings[3].resolution, SalsaDocOwnerResolutionSummary::Unresolved);
    assert_eq!(
        index.bindings[4].resolution,
        SalsaDocOwnerResolutionSummary::Ambiguous(vec![B::Decl(1), B::Decl(2)])
    );
    let single = resolve_doc_owner_binding(&binding(SalsaDocOwnerKindSummary::Closure, 3, vec![B::Member(4)]));
    assert_eq!(single.owner_offset, 3);
    assert_eq!(single.resolution, SalsaDocOwnerResolutionSummary::Member(4));
}

#[test]
fn doc_owner_lookups() {
    let index = build_doc_owner_resolve_index(&bindings());
    assert_eq!(find_doc_owner_resolve_at(&index, 30).map(|r| r.resolution), Some(SalsaDocOwnerResolutionSummary::Member(7)));
    assert!(find_doc_owner_resolve_at(&index, 31).is_none());
    let for_decl: Vec<u32> = collect_doc_owner_resolves_for_decl(&index, 1).iter().map(|r| r.owner_offset).collect();
    assert_eq!(for_decl, vec![5, 5]);
    assert!(collect_doc_owner_resolves_for_decl(&index, 2).is_empty());
    assert_eq!(collect_doc_owner_resolves_for_member(&index, 7).len(), 1);
    assert_eq!(collect_doc_owner_resolves_for_signature(&index, 20).len(), 1);
}

fn property(offset: u32, owner: SalsaPropertyOwnerSummary) -> SalsaPropertySummary {
    SalsaPropertySummary {
        syntax_offset: offset,
        owner,
        key: SalsaPropertyKeySummary::Name("k".to_string()),
        source: SalsaPropertySourceSummary::Assignment,
        value_expr_syntax_id: None,
        value_expr_offset: None,
        value_result_index: 0,
        expands_multi_result_tail: false,
        doc_type_offset: None,
        source_call_syntax_id: None,
    }
}

fn properties() -> SalsaPropertyIndexSummary {
    SalsaPropertyIndexSummary {
        properties: vec![
            property(60, SalsaPropertyOwnerSummary::Decl { decl_id: 1 }),
            property(70, SalsaPropertyOwnerSummary::Member(9)),
            property(80, SalsaPropertyOwnerSummary::Type("T".to_string())),
        ],
    }
}

fn tag_property(kind: SalsaDocOwnerKindSummary, offset: Option<u32>, entry: SalsaDocTagPropertyEntrySummary) -> SalsaDocTagPropertySummary {
    SalsaDocTagPropertySummary { owner: SalsaDocOwnerSummary { kind, syntax_offset: offset }, entries: vec![entry] }
}

fn tag_properties() -> Vec<SalsaDocTagPropertySummary> {
    vec![
        tag_property(SalsaDocOwnerKindSummary::LocalStat, Some(5), SalsaDocTagPropertyEntrySummary::Deprecated(None)),
        tag_property(SalsaDocOwnerKindSummary::NoOwner, None, SalsaDocTagPropertyEntrySummary::Module("m".to_string())),
        tag_property(SalsaDocOwnerKindSummary::FuncStat, Some(20), SalsaDocTagPropertyEntrySummary::Async),
    ]
}

fn require_call(offset: u32, path: &str) -> SalsaCallUseSummary {
    SalsaCallUseSummary {
        syntax_offset: offset,
        syntax_id: SalsaSyntaxIdSummary { kind: 0x8000, start_offset: offset, end_offset: offset + 4 },
        kind: SalsaCallKindSummary::Require,
        is_colon_call: false,
        arg_count: 1,
        require_path: Some(path.to_string()),
        callee_name: Some("require".to_string()),
        callee_member: None,
    }
}

fn local_export_module() -> SalsaModuleSummary {
    SalsaModuleSummary {
        export_target: Some(SalsaExportTargetSummary::LocalName("M".to_string())),
        export: Some(SalsaModuleExportSummary::LocalDecl { name: "M".to_string(), decl_id: 1 }),
    }
}

#[test]
fn semantic_targets_are_sorted_and_unique() {
    let index = build_doc_owner_resolve_index(&bindings());
    let targets = collect_semantic_targets(&properties(), &index);
    assert_eq!(targets, vec![T::Decl(1), T::Member(7), T::Member(9), T::Signature(20)]);
    let function = SalsaModuleExportSummary::GlobalFunction(SalsaGlobalFunctionSummary {
        name: "F".to_string(),
        decl_id: Some(3),
        signature_offset: 99,
    });
    assert_eq!(semantic_targets_from_module_export(&function), vec![T::Decl(3), T::Signature(99)]);
    assert!(semantic_targets_from_module_export(&SalsaModuleExportSummary::Table { table_offset: 4 }).is_empty());
}

#[test]
fn single_file_semantic_summary() {
    let index = build_doc_owner_resolve_index(&bindings());
    let uses = build_lexical_use_index(&SalsaUseSiteIndexSummary {
        names: vec![],
        members: vec![],
        calls: vec![require_call(1, "a"), require_call(9, "b"), require_call(15, "a")],
    });
    let module = local_export_module();
    let summary = build_single_file_semantic_summary(&properties(), &index, &uses, &tag_properties(), Some(&module));

    assert_eq!(summary.file_tag_properties, tag_properties());
    assert_eq!(summary.required_modules, vec!["a".to_string(), "b".to_string()]);
    let targets: Vec<SalsaSemanticTargetSummary> = summary.targets.iter().map(|t| t.target).collect();
    assert_eq!(targets, vec![T::Decl(1), T::Member(7), T::Member(9), T::Signature(20)]);

    let decl = &summary.targets[0];
    assert_eq!(decl.doc_owners.iter().map(|r| r.owner_offset).collect::<Vec<_>>(), vec![5]);
    assert_eq!(decl.tag_properties, vec![tag_properties()[0].clone()]);
    assert_eq!(decl.properties.iter().map(|p| p.syntax_offset).collect::<Vec<_>>(), vec![60]);

    let member7 = &summary.targets[1];
    assert_eq!(member7.doc_owners.iter().map(|r| r.owner_offset).collect::<Vec<_>>(), vec![30]);
    assert!(member7.tag_properties.is_empty());
    assert!(member7.properties.is_empty());

    let member9 = &summary.targets[2];
    assert!(member9.doc_owners.is_empty());
    assert_eq!(member9.properties.len(), 1);

    let signature = &summary.targets[3];
    assert_eq!(signature.tag_properties, vec![tag_properties()[2].clone()]);
    assert!(signature.properties.is_empty());

    let export = summary.module_export.clone().expect("module export");
    assert_eq!(export.semantic_target, Some(T::Decl(1)));
    assert_eq!(export.doc_owners.len(), 1);
    assert_eq!(export.tag_properties, vec![tag_properties()[1].clone(), tag_properties()[0].clone()]);
}

#[test]
fn module_export_without_documentation() {
    let index = build_doc_owner_resolve_index(&bindings());
    let uses = build_lexical_use_index(&SalsaUseSiteIndexSummary { names: vec![], members: vec![], calls: vec![] });
    let module = SalsaModuleSummary {
        export_target: Some(SalsaExportTargetSummary::LocalName("F".to_string())),
        export: Some(SalsaModuleExportSummary::GlobalFunction(SalsaGlobalFunctionSummary {
            name: "F".to_string(),
            decl_id: None,
            signature_offset: 99,
        })),
    };
    let summary = build_single_file_semantic_summary(&properties(), &index, &uses, &tag_properties(), Some(&module));
    let export = find_module_export_semantic(&summary).expect("module export");
    assert_eq!(export.semantic_target, Some(T::Signature(99)));
    assert!(export.doc_owners.is_empty());
    assert_eq!(export.tag_properties, vec![tag_properties()[1].clone()]);

    let one_owner = vec![tag_properties()[0].clone()];
    let summary = build_single_file_semantic_summary(&properties(), &index, &uses, &one_owner, Some(&module));
    let export = find_module_export_semantic(&summary).expect("module export");
    assert_eq!(export.tag_properties, one_owner);

    let no_export = SalsaModuleSummary { export_target: None, export: None };
    let summary = build_single_file_semantic_summary(&properties(), &index, &uses, &tag_properties(), Some(&no_export));
    assert!(summary.module_export.is_none());
    assert!(summary.required_modules.is_empty());
}

#[test]
fn semantic_lookups_and_export_state() {
    let index = build_doc_owner_resolve_index(&bindings());
    let uses = build_lexical_use_index(&SalsaUseSiteIndexSummary { names: vec![], members: vec![], calls: vec![] });
    let module = local_export_module();
    let summary = build_single_file_semantic_summary(&properties(), &index, &uses, &tag_properties(), Some(&module));
    assert_eq!(find_semantic_decl(&summary, 1).map(|i| i.target), Some(T::Decl(1)));
    assert!(find_semantic_decl(&summary, 2).is_none());
    assert_eq!(find_semantic_member(&summary, 9).map(|i| i.properties.len()), Some(1));
    assert_eq!(find_semantic_signature(&summary, 20).map(|i| i.doc_owners.len()), Some(1));
    assert!(find_semantic_signature(&summary, 21).is_none());

    let export = summary.module_export.clone();
    assert_eq!(semantic_resolve_state_from_module_export(export.as_ref()), SalsaSemanticResolveStateSummary::Resolved);
    assert_eq!(semantic_resolve_state_from_module_export(None), SalsaSemanticResolveStateSummary::Unknown);
    let table = SalsaModuleSummary {
        export_target: Some(SalsaExportTargetSummary::Table(4)),
        export: Some(SalsaModuleExportSummary::Table { table_offset: 4 }),
    };
    let summary = build_single_file_semantic_summary(&properties(), &index, &uses, &tag_properties(), Some(&table));
    let shell = build_semantic_value_shell_from_module_export(summary.module_export.as_ref());
    assert_eq!(shell.state, SalsaSemanticResolveStateSummary::Partial);
    assert!(shell.candidate_type_offsets.is_empty());
}
