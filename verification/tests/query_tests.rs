use emmylua_query::decls::{
    SalsaDeclKindSummary, SalsaDeclSummary, SalsaDeclTreeSummary, SalsaLocalAttributeSummary, SalsaScopeSummary,
    find_visible_decl_before_offset,
};
use emmylua_query::lexical::{
    SalsaLexicalUseSummary, build_lexical_use_index, collect_call_references_for_member,
    collect_call_references_for_name, collect_decl_references, collect_global_name_references,
    collect_member_references, collect_member_references_by_role, collect_name_references_by_role,
    find_call_use_by_syntax_id, find_call_use_in_index, find_lexical_use_at, find_member_use_by_syntax_id,
    find_name_use_by_syntax_id,
};
use emmylua_query::members::{
    SalsaGlobalRootSummary, SalsaMemberIndexSummary, SalsaMemberPathRootSummary, SalsaMemberPathSummary,
    SalsaMemberRootSummary, SalsaMemberSummary, SalsaMemberTargetSummary,
};
use emmylua_query::module::{
    SalsaExportTargetSummary, SalsaGlobalFunctionSummary, SalsaGlobalSummary, SalsaGlobalVariableSummary,
    SalsaModuleExportSummary, SalsaModuleSummary, build_module_resolve_index, decl_at_handle,
    find_decl_handle_by_name, find_global_function_handle_by_name, find_member_handle_by_path,
    find_module_export, find_module_export_target, find_module_exported_global_function,
    find_module_exported_global_variable, module_exports_closure, module_exports_decl,
    module_exports_global_function, module_exports_global_variable, module_exports_member, module_exports_table,
    resolve_module_export,
};
use emmylua_query::property::{
    SalsaPropertyIndexSummary, SalsaPropertyKeySummary, SalsaPropertyOwnerSummary, SalsaPropertySourceSummary,
    SalsaPropertySummary, collect_properties_for_decl, collect_properties_for_decl_and_key,
    collect_properties_for_key, collect_properties_for_member, collect_properties_for_member_and_key,
    collect_properties_for_source, collect_properties_for_type, collect_properties_for_type_and_key,
    find_property_at, find_property_by_value_expr_syntax_id,
};
use emmylua_query::type_info::SalsaSyntaxIdSummary;
use emmylua_query::uses::{
    SalsaCallKindSummary, SalsaCallUseSummary, SalsaMemberUseSummary, SalsaNameUseResolutionSummary,
    SalsaNameUseSummary, SalsaUseSiteIndexSummary, SalsaUseSiteRoleSummary, find_call_use_at, find_member_use_at,
    find_name_use_at,
};

fn sid(start: u32, end: u32) -> SalsaSyntaxIdSummary {
    SalsaSyntaxIdSummary { kind: 0x8000, start_offset: start, end_offset: end }
}

fn decl(id: u32, name: &str, kind: SalsaDeclKindSummary, scope_id: u32, start: u32) -> SalsaDeclSummary {
    SalsaDeclSummary {
        id,
        name: name.to_string(),
        kind,
        scope_id,
        start_offset: start,
        value_expr_offset: None,
        value_expr_syntax_id: None,
        value_result_index: 0,
        source_call_syntax_id: None,
    }
}

fn scoped_tree() -> SalsaDeclTreeSummary {
    SalsaDeclTreeSummary {
        decls: vec![
            decl(1, "x", SalsaDeclKindSummary::Local { attrib: None }, 1, 12),
            decl(2, "i", SalsaDeclKindSummary::Local { attrib: Some(SalsaLocalAttributeSummary::IterConst) }, 1, 15),
            decl(3, "x", SalsaDeclKindSummary::Local { attrib: None }, 0, 70),
        ],
        scopes: vec![
            SalsaScopeSummary { id: 0, start_offset: 0, end_offset: 100, parent: None },
            SalsaScopeSummary { id: 1, start_offset: 10, end_offset: 50, parent: Some(0) },
        ],
    }
}

#[test]
fn visible_decl_needs_to_have_started() {
    let tree = scoped_tree();
    assert_eq!(find_visible_decl_before_offset(&tree, "x", 20).map(|d| d.id), Some(1));
    assert!(find_visible_decl_before_offset(&tree, "x", 5).is_none());
    assert!(find_visible_decl_before_offset(&tree, "y", 20).is_none());
}

#[test]
fn visible_decl_prefers_the_latest_one() {
    let tree = scoped_tree();
    assert_eq!(find_visible_decl_before_offset(&tree, "x", 60).map(|d| d.id), Some(1));
    assert_eq!(find_visible_decl_before_offset(&tree, "x", 80).map(|d| d.id), Some(3));
}

#[test]
fn loop_variable_is_visible_only_inside_its_scope() {
    let tree = scoped_tree();
    assert_eq!(find_visible_decl_before_offset(&tree, "i", 20).map(|d| d.id), Some(2));
    assert!(find_visible_decl_before_offset(&tree, "i", 60).is_none());
}

fn global_member(name: &str) -> SalsaMemberSummary {
    SalsaMemberSummary {
        target_handle: if name == "a" { 1 } else { 2 },
        target: SalsaMemberTargetSummary {
            root: SalsaMemberRootSummary::Global(SalsaGlobalRootSummary::Name("M".to_string())),
            owner_segments: vec![],
            member_name: name.to_string(),
        },
        value_expr_offset: Some(30),
    }
}

fn resolve_inputs() -> (SalsaDeclTreeSummary, SalsaGlobalSummary, SalsaMemberIndexSummary) {
    let tree = SalsaDeclTreeSummary {
        decls: vec![
            decl(1, "M", SalsaDeclKindSummary::Local { attrib: None }, 0, 0),
            decl(2, "M", SalsaDeclKindSummary::Local { attrib: None }, 0, 5),
            decl(3, "G", SalsaDeclKindSummary::Global, 0, 8),
            decl(4, "V", SalsaDeclKindSummary::Global, 0, 9),
            decl(5, "H", SalsaDeclKindSummary::Global, 0, 10),
        ],
        scopes: vec![SalsaScopeSummary { id: 0, start_offset: 0, end_offset: 100, parent: None }],
    };
    let globals = SalsaGlobalSummary {
        entries: vec![],
        functions: vec![
            SalsaGlobalFunctionSummary { name: "G".to_string(), decl_id: Some(3), signature_offset: 40 },
            SalsaGlobalFunctionSummary { name: "F".to_string(), decl_id: None, signature_offset: 50 },
        ],
        variables: vec![
            SalsaGlobalVariableSummary { name: "V".to_string(), decl_id: 4 },
            SalsaGlobalVariableSummary { name: "W".to_string(), decl_id: 6 },
        ],
    };
    let members = SalsaMemberIndexSummary { members: vec![global_member("a"), global_member("b")] };
    (tree, globals, members)
}

#[test]
fn module_export_of_a_local_name_is_the_last_declaration() {
    let (tree, globals, members) = resolve_inputs();
    let export = resolve_module_export(&SalsaExportTargetSummary::LocalName("M".to_string()), &tree, &globals, &members);
    assert!(matches!(export, Some(SalsaModuleExportSummary::LocalDecl { decl_id: 2, .. })));
}

#[test]
fn module_export_of_globals() {
    let (tree, globals, members) = resolve_inputs();
    let f = resolve_module_export(&SalsaExportTargetSummary::LocalName("G".to_string()), &tree, &globals, &members);
    assert!(matches!(f, Some(SalsaModuleExportSummary::GlobalFunction(ref g)) if g.signature_offset == 40));
    let v = resolve_module_export(&SalsaExportTargetSummary::LocalName("V".to_string()), &tree, &globals, &members);
    assert!(matches!(v, Some(SalsaModuleExportSummary::GlobalVariable(ref g)) if g.decl_id == 4));
    let h = resolve_module_export(&SalsaExportTargetSummary::LocalName("H".to_string()), &tree, &globals, &members);
    assert!(matches!(h, Some(SalsaModuleExportSummary::LocalDecl { decl_id: 5, .. })));
    let undeclared =
        resolve_module_export(&SalsaExportTargetSummary::LocalName("F".to_string()), &tree, &globals, &members);
    assert!(matches!(undeclared, Some(SalsaModuleExportSummary::GlobalFunction(ref g)) if g.signature_offset == 50));
    let w = resolve_module_export(&SalsaExportTargetSummary::LocalName("W".to_string()), &tree, &globals, &members);
    assert!(matches!(w, Some(SalsaModuleExportSummary::GlobalVariable(ref g)) if g.decl_id == 6));
    let none = resolve_module_export(&SalsaExportTargetSummary::LocalName("Z".to_string()), &tree, &globals, &members);
    assert!(none.is_none());
}

#[test]
fn module_export_of_member_closure_and_table() {
    let (tree, globals, members) = resolve_inputs();
    let path = SalsaMemberPathSummary {
        root: SalsaMemberPathRootSummary::Name("M".to_string()),
        owner_segments: vec![],
        member_name: "b".to_string(),
    };
    let member = resolve_module_export(&SalsaExportTargetSummary::Member(path), &tree, &globals, &members);
    assert!(matches!(member, Some(SalsaModuleExportSummary::Member(ref m)) if m.target.member_name == "b"));
    let missing = SalsaMemberPathSummary {
        root: SalsaMemberPathRootSummary::Env,
        owner_segments: vec![],
        member_name: "b".to_string(),
    };
    assert!(resolve_module_export(&SalsaExportTargetSummary::Member(missing), &tree, &globals, &members).is_none());
    let closure = resolve_module_export(&SalsaExportTargetSummary::Closure(77), &tree, &globals, &members);
    assert!(matches!(closure, Some(SalsaModuleExportSummary::Closure { signature_offset: 77 })));
    let table = resolve_module_export(&SalsaExportTargetSummary::Table(88), &tree, &globals, &members);
    assert!(matches!(table, Some(SalsaModuleExportSummary::Table { table_offset: 88 })));
}

#[test]
fn module_resolve_index_handles() {
    let (tree, globals, members) = resolve_inputs();
    let index = build_module_resolve_index(&tree, &globals, &members);
    let handle = find_decl_handle_by_name(&index, "M").expect("M is declared");
    assert_eq!(handle.0, 1);
    assert_eq!(decl_at_handle(&index, handle).map(|d| d.id), Some(2));
    assert_eq!(find_global_function_handle_by_name(&index, "F").map(|h| h.0), Some(1));
    let path = SalsaMemberPathSummary {
        root: SalsaMemberPathRootSummary::Name("M".to_string()),
        owner_segments: vec![],
        member_name: "a".to_string(),
    };
    assert_eq!(find_member_handle_by_path(&index, &path).map(|h| h.0), Some(0));
    assert!(find_decl_handle_by_name(&index, "nope").is_none());
}

#[test]
fn module_export_predicates() {
    let function = SalsaGlobalFunctionSummary { name: "G".to_string(), decl_id: Some(3), signature_offset: 40 };
    let module = SalsaModuleSummary {
        export_target: Some(SalsaExportTargetSummary::LocalName("G".to_string())),
        export: Some(SalsaModuleExportSummary::GlobalFunction(function)),
    };
    assert!(matches!(find_module_export_target(&module), Some(SalsaExportTargetSummary::LocalName(ref n)) if n == "G"));
    assert!(find_module_export(&module).is_some());
    assert_eq!(find_module_exported_global_function(&module).map(|f| f.signature_offset), Some(40));
    assert!(find_module_exported_global_variable(&module).is_none());
    assert!(module_exports_global_function(&module, "G"));
    assert!(!module_exports_global_function(&module, "H"));
    assert!(!module_exports_global_variable(&module, "G"));
    assert!(!module_exports_decl(&module, 3));

    let local = SalsaModuleSummary {
        export_target: None,
        export: Some(SalsaModuleExportSummary::LocalDecl { name: "M".to_string(), decl_id: 2 }),
    };
    assert!(module_exports_decl(&local, 2));
    assert!(!module_exports_decl(&local, 1));
    let closure = SalsaModuleSummary { export_target: None, export: Some(SalsaModuleExportSummary::Closure { signature_offset: 9 }) };
    assert!(module_exports_closure(&closure, 9));
    assert!(!module_exports_table(&closure, 9));
    let table = SalsaModuleSummary { export_target: None, export: Some(SalsaModuleExportSummary::Table { table_offset: 4 }) };
    assert!(module_exports_table(&table, 4));
    let member = SalsaModuleSummary { export_target: None, export: Some(SalsaModuleExportSummary::Member(global_member("a"))) };
    assert!(module_exports_member(&member, &global_member("a").target));
    assert!(!module_exports_member(&member, &global_member("b").target));
    let nothing = SalsaModuleSummary { export_target: None, export: None };
    assert!(find_module_export(&nothing).is_none());
    assert!(!module_exports_closure(&nothing, 9));
}

fn name_use(offset: u32, start: u32, end: u32, name: &str, role: SalsaUseSiteRoleSummary, res: SalsaNameUseResolutionSummary) -> SalsaNameUseSummary {
    SalsaNameUseSummary { syntax_offset: offset, syntax_id: sid(start, end), name: name.to_string(), role, resolution: res }
}

fn sample_use_sites() -> SalsaUseSiteIndexSummary {
    SalsaUseSiteIndexSummary {
        names: vec![
            name_use(10, 10, 11, "a", SalsaUseSiteRoleSummary::Read, SalsaNameUseResolutionSummary::LocalDecl(1)),
            name_use(5, 5, 6, "print", SalsaUseSiteRoleSummary::CallCallee, SalsaNameUseResolutionSummary::Global),
            name_use(20, 20, 21, "a", SalsaUseSiteRoleSummary::Write, SalsaNameUseResolutionSummary::LocalDecl(1)),
        ],
        members: vec![SalsaMemberUseSummary {
            syntax_offset: 10,
            syntax_id: sid(10, 14),
            role: SalsaUseSiteRoleSummary::Read,
            target: 7,
        }],
        calls: vec![
            SalsaCallUseSummary {
                syntax_offset: 10,
                syntax_id: sid(10, 18),
                kind: SalsaCallKindSummary::Normal,
                is_colon_call: false,
                arg_count: 1,
                require_path: None,
                callee_name: None,
                callee_member: Some(7),
            },
            SalsaCallUseSummary {
                syntax_offset: 5,
                syntax_id: sid(5, 9),
                kind: SalsaCallKindSummary::Normal,
                is_colon_call: false,
                arg_count: 0,
                require_path: None,
                callee_name: Some("print".to_string()),
                callee_member: None,
            },
        ],
    }
}

fn use_offset_and_rank(u: &SalsaLexicalUseSummary) -> (u32, u8) {
    match u {
        SalsaLexicalUseSummary::Member { syntax_offset, .. } => (*syntax_offset, 0),
        SalsaLexicalUseSummary::Name { syntax_offset, .. } => (*syntax_offset, 1),
        SalsaLexicalUseSummary::Call { syntax_offset, .. } => (*syntax_offset, 2),
    }
}

#[test]
fn lexical_uses_are_in_source_order() {
    let index = build_lexical_use_index(&sample_use_sites());
    let order: Vec<(u32, u8)> = index.uses.iter().map(use_offset_and_rank).collect();
    assert_eq!(order, vec![(5, 1), (5, 2), (10, 0), (10, 1), (10, 2), (20, 1)]);
    assert_eq!(index.decl_name_uses.len(), 2);
    assert_eq!(index.global_name_uses.len(), 1);
}

#[test]
fn lexical_use_at_prefers_exact_then_tightest() {
    let index = build_lexical_use_index(&sample_use_sites());
    assert_eq!(find_lexical_use_at(&index, 10).as_ref().map(use_offset_and_rank), Some((10, 0)));
    // 12 lies in the member (10..14) and the call (10..18): the member is tighter.
    assert_eq!(find_lexical_use_at(&index, 12).as_ref().map(use_offset_and_rank), Some((10, 0)));
    assert_eq!(find_lexical_use_at(&index, 16).as_ref().map(use_offset_and_rank), Some((10, 2)));
    assert!(find_lexical_use_at(&index, 30).is_none());
}

#[test]
fn use_sites_at_offsets() {
    let sites = sample_use_sites();
    assert_eq!(find_call_use_at(&sites, 7).map(|c| c.syntax_offset), Some(5));
    assert_eq!(find_call_use_at(&sites, 12).map(|c| c.syntax_offset), Some(10));
    assert!(find_call_use_at(&sites, 40).is_none());
    assert_eq!(find_name_use_at(&sites, 20).map(|n| n.name), Some("a".to_string()));
    assert!(find_name_use_at(&sites, 12).is_none());
    assert_eq!(find_member_use_at(&sites, 13).map(|m| m.target), Some(7));

    let index = build_lexical_use_index(&sites);
    assert_eq!(find_call_use_in_index(&index, 10).map(|c| c.arg_count), Some(1));
    assert!(find_call_use_in_index(&index, 12).is_none());
    assert_eq!(find_call_use_by_syntax_id(&index, sid(5, 9)).map(|c| c.syntax_offset), Some(5));
    assert_eq!(find_name_use_by_syntax_id(&index, sid(20, 21)).map(|n| n.syntax_offset), Some(20));
    assert_eq!(find_member_use_by_syntax_id(&index, sid(10, 14)).map(|m| m.target), Some(7));
    assert!(find_member_use_by_syntax_id(&index, sid(10, 15)).is_none());
}

#[test]
fn reference_queries() {
    let sites = sample_use_sites();
    let refs: Vec<u32> = collect_decl_references(&sites, 1).iter().map(|n| n.syntax_offset).collect();
    assert_eq!(refs, vec![10, 20]);
    assert_eq!(collect_global_name_references(&sites, "print").len(), 1);
    assert!(collect_global_name_references(&sites, "a").is_empty());
    let writes: Vec<u32> =
        collect_name_references_by_role(&sites, &SalsaUseSiteRoleSummary::Write).iter().map(|n| n.syntax_offset).collect();
    assert_eq!(writes, vec![20]);
    assert_eq!(collect_member_references(&sites, 7).len(), 1);
    assert!(collect_member_references_by_role(&sites, &SalsaUseSiteRoleSummary::Write).is_empty());
    assert_eq!(collect_call_references_for_name(&sites, "print").iter().map(|c| c.syntax_offset).collect::<Vec<_>>(), vec![5]);
    assert_eq!(collect_call_references_for_member(&sites, 7).iter().map(|c| c.syntax_offset).collect::<Vec<_>>(), vec![10]);
    assert!(collect_call_references_for_member(&sites, 8).is_empty());
}

fn property(offset: u32, owner: SalsaPropertyOwnerSummary, key: SalsaPropertyKeySummary, tail: bool) -> SalsaPropertySummary {
    SalsaPropertySummary {
        syntax_offset: offset,
        owner,
        key,
        source: SalsaPropertySourceSummary::TableField,
        value_expr_syntax_id: Some(sid(offset + 1, offset + 3)),
        value_expr_offset: Some(offset + 1),
        value_result_index: 0,
        expands_multi_result_tail: tail,
        doc_type_offset: None,
        source_call_syntax_id: None,
    }
}

fn sample_properties() -> SalsaPropertyIndexSummary {
    SalsaPropertyIndexSummary {
        properties: vec![
            property(10, SalsaPropertyOwnerSummary::Decl { decl_id: 1 }, SalsaPropertyKeySummary::Sequence(1), true),
            property(20, SalsaPropertyOwnerSummary::Decl { decl_id: 1 }, SalsaPropertyKeySummary::Name("x".to_string()), false),
            property(30, SalsaPropertyOwnerSummary::Member(7), SalsaPropertyKeySummary::Integer(2), false),
            property(40, SalsaPropertyOwnerSummary::Type("Point".to_string()), SalsaPropertyKeySummary::Name("x".to_string()), false),
        ],
    }
}

#[test]
fn property_lookups_by_position_and_owner() {
    let props = sample_properties();
    assert_eq!(find_property_at(&props, 20).map(|p| p.syntax_offset), Some(20));
    assert!(find_property_at(&props, 21).is_none());
    assert_eq!(find_property_by_value_expr_syntax_id(&props, sid(31, 33)).map(|p| p.syntax_offset), Some(30));
    assert_eq!(collect_properties_for_decl(&props, 1).iter().map(|p| p.syntax_offset).collect::<Vec<_>>(), vec![10, 20]);
    assert_eq!(collect_properties_for_member(&props, 7).len(), 1);
    assert_eq!(collect_properties_for_type(&props, "Point").len(), 1);
    assert!(collect_properties_for_type(&props, "Line").is_empty());
    assert_eq!(collect_properties_for_source(&props, &SalsaPropertySourceSummary::TableField).len(), 4);
    assert!(collect_properties_for_source(&props, &SalsaPropertySourceSummary::DocField).is_empty());
    let named: Vec<u32> =
        collect_properties_for_key(&props, &SalsaPropertyKeySummary::Name("x".to_string())).iter().map(|p| p.syntax_offset).collect();
    assert_eq!(named, vec![20, 40]);
}

#[test]
fn property_multi_result_tail_expands_to_later_keys() {
    let props = sample_properties();
    let third = collect_properties_for_decl_and_key(&props, 1, &SalsaPropertyKeySummary::Integer(3));
    assert_eq!(third.len(), 1);
    assert_eq!(third[0].syntax_offset, 10);
    assert!(matches!(third[0].key, SalsaPropertyKeySummary::Integer(3)));
    assert_eq!(third[0].value_result_index, 2);

    let first = collect_properties_for_decl_and_key(&props, 1, &SalsaPropertyKeySummary::Sequence(1));
    assert_eq!(first.len(), 1);
    assert!(matches!(first[0].key, SalsaPropertyKeySummary::Sequence(1)));
    assert_eq!(first[0].value_result_index, 0);

    let first_int = collect_properties_for_decl_and_key(&props, 1, &SalsaPropertyKeySummary::Integer(1));
    assert_eq!(first_int.len(), 1);
    assert!(matches!(first_int[0].key, SalsaPropertyKeySummary::Integer(1)));
    assert_eq!(first_int[0].value_result_index, 0);

    assert!(collect_properties_for_decl_and_key(&props, 1, &SalsaPropertyKeySummary::Integer(0)).is_empty());
    let x = collect_properties_for_decl_and_key(&props, 1, &SalsaPropertyKeySummary::Name("x".to_string()));
    assert_eq!(x.iter().map(|p| p.syntax_offset).collect::<Vec<_>>(), vec![20]);
}

#[test]
fn property_member_and_type_keys() {
    let props = sample_properties();
    assert_eq!(collect_properties_for_member_and_key(&props, 7, &SalsaPropertyKeySummary::Integer(2)).len(), 1);
    assert!(collect_properties_for_member_and_key(&props, 7, &SalsaPropertyKeySummary::Sequence(2)).is_empty());
    assert_eq!(
        collect_properties_for_type_and_key(&props, "Point", &SalsaPropertyKeySummary::Name("x".to_string())).len(),
        1
    );
    assert!(collect_properties_for_type_and_key(&props, "Point", &SalsaPropertyKeySummary::Name("y".to_string())).is_empty());
}
