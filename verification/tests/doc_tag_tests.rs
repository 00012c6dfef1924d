use emmylua_query::doc_tag::{
    SalsaDocDiagnosticActionKindSummary, SalsaDocDiagnosticActionSummary, SalsaDocOwnerKindSummary,
    SalsaDocOwnerSummary, SalsaDocSummary, SalsaDocTagKindSummary, SalsaDocTagNameContentSummary,
    SalsaDocTagPropertyEntrySummary, SalsaDocTagPropertySummary, SalsaDocTagSummary,
    SalsaDocVersionComparatorSummary, SalsaDocVersionConditionSummary, SalsaDocVisibilityKindSummary,
    build_diagnostic_summaries, build_doc_tag_properties_from_tags, build_doc_tag_query_index,
    build_doc_tag_query_index_from_properties, collect_doc_tag_properties,
    collect_doc_tag_properties_for_owners_in_index, collect_doc_tags_for_kind, collect_doc_tags_for_owner,
    collect_ownerless_doc_tag_properties_in_index, diagnostic_action_kind_from_name, find_doc_tag_at,
    find_doc_tag_property, find_doc_tag_property_in_index, is_property_like_tag,
};

use SalsaDocTagKindSummary as K;
use SalsaDocTagPropertyEntrySummary as E;

fn owner(kind: SalsaDocOwnerKindSummary, offset: Option<u32>) -> SalsaDocOwnerSummary {
    SalsaDocOwnerSummary { kind, syntax_offset: offset }
}

fn file_owner() -> SalsaDocOwnerSummary {
    owner(SalsaDocOwnerKindSummary::NoOwner, None)
}

fn func_owner() -> SalsaDocOwnerSummary {
    owner(SalsaDocOwnerKindSummary::FuncStat, Some(20))
}

fn local_owner() -> SalsaDocOwnerSummary {
    owner(SalsaDocOwnerKindSummary::LocalStat, Some(4))
}

fn tag(
    offset: u32,
    kind: SalsaDocTagKindSummary,
    owner: SalsaDocOwnerSummary,
    name: Option<&str>,
    content: Option<&str>,
    items: &[&str],
) -> SalsaDocTagSummary {
    SalsaDocTagSummary {
        syntax_offset: offset,
        kind,
        owner,
        name: name.map(|s| s.to_string()),
        content: content.map(|s| s.to_string()),
        visibility: None,
        version_conds: Vec::new(),
        items: items.iter().map(|s| s.to_string()).collect(),
    }
}

fn sample_doc() -> SalsaDocSummary {
    SalsaDocSummary {
        type_tags: vec![],
        params: vec![],
        type_defs: vec![],
        tags: vec![
            tag(5, K::Deprecated, func_owner(), None, Some("old"), &[]),
            tag(1, K::Class, func_owner(), Some("C"), None, &[]),
            tag(3, K::Module, file_owner(), Some("m"), None, &[]),
            tag(8, K::Async, func_owner(), None, None, &[]),
            tag(2, K::See, func_owner(), None, Some("x"), &[]),
            tag(9, K::Diagnostic, file_owner(), Some("disable-next-line"), None, &[]),
            tag(10, K::Diagnostic, file_owner(), Some("enable"), None, &[]),
            tag(11, K::Other, local_owner(), Some("custom"), None, &[]),
            tag(12, K::AttributeUse, local_owner(), None, None, &["a", "b"]),
        ],
    }
}

fn action(
    offset: u32,
    kind: SalsaDocDiagnosticActionKindSummary,
    code: Option<&str>,
) -> SalsaDocDiagnosticActionSummary {
    SalsaDocDiagnosticActionSummary { syntax_offset: offset, kind, code_name: code.map(|s| s.to_string()) }
}

#[test]
fn doc_tag_properties_group_by_owner_in_owner_order() {
    let properties = collect_doc_tag_properties(&sample_doc());
    assert_eq!(properties.len(), 3);
    assert_eq!(properties[0].owner, file_owner());
    assert_eq!(properties[1].owner, local_owner());
    assert_eq!(properties[2].owner, func_owner());
    assert_eq!(
        properties[0].entries,
        vec![
            E::Module("m".to_string()),
            E::Diagnostic(vec![action(9, SalsaDocDiagnosticActionKindSummary::DisableNextLine, None)]),
        ]
    );
    assert_eq!(
        properties[1].entries,
        vec![
            E::CustomTag(Box::new(SalsaDocTagNameContentSummary { name: "custom".to_string(), content: None })),
            E::AttributeUse("a".to_string()),
            E::AttributeUse("b".to_string()),
        ]
    );
    assert_eq!(
        properties[2].entries,
        vec![E::See("x".to_string()), E::Deprecated(Some("old".to_string())), E::Async]
    );
}

#[test]
fn doc_tag_property_accessors() {
    let properties = collect_doc_tag_properties(&sample_doc());
    let file = &properties[0];
    let local = &properties[1];
    let func = &properties[2];

    assert_eq!(file.module(), Some(&"m".to_string()));
    assert_eq!(file.diagnostics(), vec![vec![action(9, SalsaDocDiagnosticActionKindSummary::DisableNextLine, None)]]);
    assert!(!file.is_deprecated());

    assert_eq!(
        local.custom_tags(),
        vec![SalsaDocTagNameContentSummary { name: "custom".to_string(), content: None }]
    );
    assert_eq!(local.attribute_uses(), vec!["a".to_string(), "b".to_string()]);
    assert_eq!(local.module(), None);

    assert!(func.is_deprecated());
    assert_eq!(func.deprecated_message(), Some(Some(&"old".to_string())));
    assert_eq!(func.nodiscard_message(), None);
    assert_eq!(func.see(), vec!["x".to_string()]);
    assert!(func.is_async());
    assert!(!func.is_readonly());
    assert!(!func.is_nodiscard());
    assert_eq!(func.visibility(), None);
    assert!(func.version_conds().is_empty());
    assert!(func.using_names().is_empty());
    assert!(func.schemas().is_empty());
}

#[test]
fn doc_tag_first_module_wins_by_position() {
    let doc = SalsaDocSummary {
        type_tags: vec![],
        params: vec![],
        type_defs: vec![],
        tags: vec![
            tag(7, K::Module, file_owner(), Some("late"), None, &[]),
            tag(4, K::Module, file_owner(), Some("early"), None, &[]),
            tag(6, K::Namespace, file_owner(), Some("ns"), None, &[]),
            tag(8, K::Meta, file_owner(), Some("meta"), None, &[]),
            tag(9, K::Language, file_owner(), Some("sql"), None, &[]),
            tag(10, K::Using, file_owner(), Some("u"), None, &[]),
            tag(11, K::Source, file_owner(), None, Some("src"), &[]),
            tag(12, K::Schema, file_owner(), None, Some("s"), &[]),
            tag(13, K::Nodiscard, file_owner(), None, None, &[]),
            tag(14, K::Readonly, file_owner(), None, None, &[]),
        ],
    };
    let properties = collect_doc_tag_properties(&doc);
    assert_eq!(properties.len(), 1);
    let p = &properties[0];
    assert_eq!(p.module(), Some(&"early".to_string()));
    assert_eq!(p.namespace(), Some(&"ns".to_string()));
    assert_eq!(p.meta(), Some(&"meta".to_string()));
    assert_eq!(p.language(), Some(&"sql".to_string()));
    assert_eq!(p.using_names(), vec!["u".to_string()]);
    assert_eq!(p.source(), Some(&"src".to_string()));
    assert_eq!(p.schemas(), vec!["s".to_string()]);
    assert_eq!(p.nodiscard_message(), Some(None));
    assert!(p.is_nodiscard());
    assert!(p.is_readonly());
    assert_eq!(p.entries.len(), 10);
    assert_eq!(p.entries[0], E::Module("early".to_string()));
    assert_eq!(p.entries[2], E::Module("late".to_string()));
}

#[test]
fn doc_tag_entries_need_their_text() {
    let mut visible = tag(1, K::Visibility, file_owner(), None, None, &[]);
    visible.visibility = Some(SalsaDocVisibilityKindSummary::Private);
    let mut versioned = tag(2, K::Version, file_owner(), None, None, &[]);
    versioned.version_conds = vec![SalsaDocVersionConditionSummary {
        comparator: SalsaDocVersionComparatorSummary::Ge,
        version: "5.3".to_string(),
    }];
    let doc = SalsaDocSummary {
        type_tags: vec![],
        params: vec![],
        type_defs: vec![],
        tags: vec![
            visible,
            tag(3, K::Visibility, file_owner(), None, None, &[]),
            tag(4, K::Module, file_owner(), None, None, &[]),
            tag(5, K::Other, file_owner(), None, Some("no name"), &[]),
            versioned,
        ],
    };
    let properties = collect_doc_tag_properties(&doc);
    assert_eq!(properties.len(), 1);
    let p = &properties[0];
    assert_eq!(p.entries.len(), 2);
    assert_eq!(p.visibility(), Some(&SalsaDocVisibilityKindSummary::Private));
    assert_eq!(
        p.version_conds(),
        vec![SalsaDocVersionConditionSummary {
            comparator: SalsaDocVersionComparatorSummary::Ge,
            version: "5.3".to_string(),
        }]
    );
}

#[test]
fn doc_tag_properties_ignore_non_property_tags() {
    let doc = SalsaDocSummary {
        type_tags: vec![],
        params: vec![],
        type_defs: vec![],
        tags: vec![
            tag(1, K::Class, file_owner(), Some("C"), None, &[]),
            tag(2, K::Param, file_owner(), Some("p"), None, &[]),
            tag(3, K::ReturnOverload, file_owner(), None, None, &[]),
        ],
    };
    assert!(collect_doc_tag_properties(&doc).is_empty());
    assert!(build_doc_tag_properties_from_tags(&Vec::new()).is_empty());
    assert!(is_property_like_tag(&K::Deprecated));
    assert!(is_property_like_tag(&K::Other));
    assert!(!is_property_like_tag(&K::Class));
    assert!(!is_property_like_tag(&K::ReturnOverload));
}

#[test]
fn doc_tag_lookup_by_position_kind_and_owner() {
    let doc = sample_doc();
    let found = find_doc_tag_at(&doc, 8).expect("tag at 8");
    assert_eq!(found.kind, K::Async);
    assert!(find_doc_tag_at(&doc, 100).is_none());

    let diagnostics = collect_doc_tags_for_kind(&doc, &K::Diagnostic);
    assert_eq!(diagnostics.iter().map(|t| t.syntax_offset).collect::<Vec<_>>(), vec![9, 10]);
    assert!(collect_doc_tags_for_kind(&doc, &K::Field).is_empty());

    let of_func = collect_doc_tags_for_owner(&doc, &func_owner());
    assert_eq!(of_func.iter().map(|t| t.syntax_offset).collect::<Vec<_>>(), vec![5, 1, 8, 2]);
}

#[test]
fn doc_tag_property_lookup_by_owner() {
    let doc = sample_doc();
    let local = find_doc_tag_property(&doc, &local_owner()).expect("property of the local");
    assert_eq!(local.owner, local_owner());
    assert!(find_doc_tag_property(&doc, &owner(SalsaDocOwnerKindSummary::ReturnStat, Some(1))).is_none());

    let index = build_doc_tag_query_index(&doc);
    assert_eq!(index.tags, doc.tags);
    let picked = collect_doc_tag_properties_for_owners_in_index(&index, &[func_owner(), file_owner(), func_owner()]);
    assert_eq!(picked.iter().map(|p| p.owner).collect::<Vec<_>>(), vec![file_owner(), func_owner()]);

    let ownerless = collect_ownerless_doc_tag_properties_in_index(&index);
    assert_eq!(ownerless.len(), 1);
    assert_eq!(ownerless[0].owner, file_owner());
}

#[test]
fn doc_tag_index_from_properties_has_no_tags() {
    let properties: Vec<SalsaDocTagPropertySummary> = vec![SalsaDocTagPropertySummary {
        owner: local_owner(),
        entries: vec![E::Readonly],
    }];
    let index = build_doc_tag_query_index_from_properties(&properties);
    assert!(index.tags.is_empty());
    assert_eq!(index.properties, properties);
    let found = find_doc_tag_property_in_index(&index, &local_owner()).expect("property");
    assert!(found.is_readonly());
}

#[test]
fn diagnostic_action_names() {
    assert_eq!(diagnostic_action_kind_from_name("disable"), Some(SalsaDocDiagnosticActionKindSummary::Disable));
    assert_eq!(
        diagnostic_action_kind_from_name("disable-next-line"),
        Some(SalsaDocDiagnosticActionKindSummary::DisableNextLine)
    );
    assert_eq!(diagnostic_action_kind_from_name("disable-line"), Some(SalsaDocDiagnosticActionKindSummary::DisableLine));
    assert_eq!(diagnostic_action_kind_from_name("enable"), Some(SalsaDocDiagnosticActionKindSummary::Enable));
    assert_eq!(diagnostic_action_kind_from_name("Disable"), None);
    assert_eq!(diagnostic_action_kind_from_name(""), None);
}

#[test]
fn diagnostic_actions_per_code() {
    let disable = tag(3, K::Diagnostic, file_owner(), Some("disable"), None, &["undefined-global", "unused"]);
    assert_eq!(
        build_diagnostic_summaries(&disable),
        vec![
            action(3, SalsaDocDiagnosticActionKindSummary::Disable, Some("undefined-global")),
            action(3, SalsaDocDiagnosticActionKindSummary::Disable, Some("unused")),
        ]
    );
    let enable = tag(4, K::Diagnostic, file_owner(), Some("enable"), None, &["unused"]);
    assert_eq!(
        build_diagnostic_summaries(&enable),
        vec![action(4, SalsaDocDiagnosticActionKindSummary::Enable, Some("unused"))]
    );
    let line = tag(5, K::Diagnostic, file_owner(), Some("disable-line"), None, &[]);
    assert_eq!(
        build_diagnostic_summaries(&line),
        vec![action(5, SalsaDocDiagnosticActionKindSummary::DisableLine, None)]
    );
    let bare_enable = tag(6, K::Diagnostic, file_owner(), Some("enable"), None, &[]);
    assert!(build_diagnostic_summaries(&bare_enable).is_empty());
    let unnamed = tag(7, K::Diagnostic, file_owner(), None, None, &["unused"]);
    assert!(build_diagnostic_summaries(&unnamed).is_empty());
    let unknown = tag(8, K::Diagnostic, file_owner(), Some("mute"), None, &["unused"]);
    assert!(build_diagnostic_summaries(&unknown).is_empty());
}
