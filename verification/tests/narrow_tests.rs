use emmylua_query::doc_type::{
    SalsaDocTypeBinaryOperatorSummary, SalsaDocTypeIndexSummary, SalsaDocTypeKindSummary, SalsaDocTypeLoweredIndex,
    SalsaDocTypeLoweredKind, SalsaDocTypeNodeSummary, SalsaDocTypedParamSummary, build_doc_type_node_index, build_lowered_doc_type_index,
    find_lowered_doc_type_at, find_lowered_doc_type_by_key, lower_doc_type_node, find_resolved_doc_type_by_key_from_parts,
};
use emmylua_query::doc_type_chains::doc_type_chains_end;
use emmylua_query::doc_type_resolved::build_resolved_doc_type_index;
use emmylua_query::doc_type::SalsaDocTypeLoweredNode;
use emmylua_query::narrow::{
    SalsaTypeNarrowSummary, apply_narrows_to_candidate, dedupe_offsets, exclude_type_guard_offset,
    narrow_falsey_type_offset, narrow_field_literal_offset, narrow_literal_offset, narrow_truthy_type_offset,
    narrow_matches_type_offset, narrow_type_guard_offset, narrow_type_offsets,
};
use emmylua_query::property::{
    SalsaPropertyIndexSummary, SalsaPropertyKeySummary, SalsaPropertyOwnerSummary, SalsaPropertyQueryIndex,
    SalsaPropertySourceSummary, SalsaPropertySummary, build_property_query_index,
};
use emmylua_query::signature_model::SalsaDocTypeRef;
use emmylua_query::iterator_slots::{collect_iterator_slot_offsets_from_type_offset, collect_iterator_slot_offsets_from_type_ref};
use emmylua_query::type_info::{SalsaSyntaxIdSummary, SalsaTypeCandidateOriginSummary, SalsaTypeCandidateSummary};

use SalsaDocTypeBinaryOperatorSummary::{Intersection, Union};
use SalsaDocTypeKindSummary as K;
use SalsaDocTypeRef::{Incomplete, Node};

fn node(key: u32, start: u32, end: u32, kind: SalsaDocTypeKindSummary) -> SalsaDocTypeNodeSummary {
    SalsaDocTypeNodeSummary {
        key,
        syntax_offset: start,
        syntax_id: SalsaSyntaxIdSummary { kind: 7, start_offset: start, end_offset: end },
        kind,
    }
}

fn name(key: u32, n: &str) -> SalsaDocTypeNodeSummary {
    node(key, key * 100, key * 100 + 5, K::Name { name: Some(n.to_string()) })
}

fn literal(key: u32, text: &str) -> SalsaDocTypeNodeSummary {
    node(key, key * 100, key * 100 + 5, K::Literal { text: text.to_string() })
}

fn union(key: u32, left: Option<u32>, right: Option<u32>) -> SalsaDocTypeNodeSummary {
    node(key, key * 100, key * 100 + 50, K::Binary { op: Union, left_type_offset: left, right_type_offset: right })
}

fn items(kind: &SalsaDocTypeLoweredKind) -> Vec<SalsaDocTypeRef> {
    match kind {
        SalsaDocTypeLoweredKind::Union { item_types } | SalsaDocTypeLoweredKind::Intersection { item_types } => item_types.clone(),
        _ => panic!("not a union or intersection"),
    }
}

fn doc_types() -> SalsaDocTypeIndexSummary {
    SalsaDocTypeIndexSummary {
        types: vec![
            union(1, Some(2), Some(3)),
            name(2, "A"),
            union(3, Some(4), None),
            node(4, 400, 420, K::MultiLineUnion { item_type_offsets: vec![5, 6] }),
            node(7, 700, 760, K::Binary { op: Intersection, left_type_offset: Some(2), right_type_offset: Some(8) }),
            node(
                9,
                900,
                960,
                K::Function {
                    is_async: true,
                    is_sync: false,
                    generic_params: vec![],
                    params: vec![SalsaDocTypedParamSummary {
                        name: Some("x".to_string()),
                        type_offset: Some(2),
                        is_dots: false,
                        is_nullable: true,
                    }],
                    returns: vec![],
                },
            ),
            union(10, Some(11), Some(12)),
            name(11, "nil"),
            name(12, "A"),
            union(20, Some(21), Some(22)),
            literal(21, "a"),
            literal(22, "b"),
            node(30, 3000, 3010, K::Nullable { inner_type_offset: Some(12) }),
            literal(40, "cat"),
            literal(41, "dog"),
            union(50, Some(51), Some(52)),
            name(51, "Cat"),
            name(52, "Dog"),
        ],
    }
}

fn lowered() -> SalsaDocTypeLoweredIndex {
    build_lowered_doc_type_index(&doc_types())
}

#[test]
fn lowering_flattens_union_and_intersection_chains() {
    let lowered = lowered();
    assert_eq!(lowered.types.len(), doc_types().types.len());
    let by_key = |k: u32| find_lowered_doc_type_by_key(&lowered, k).expect("lowered node").kind.clone();
    assert_eq!(items(&by_key(1)), vec![Node(2), Node(5), Node(6), Incomplete]);
    assert_eq!(items(&by_key(3)), vec![Node(5), Node(6), Incomplete]);
    assert_eq!(items(&by_key(4)), vec![Node(5), Node(6)]);
    assert_eq!(items(&by_key(7)), vec![Node(2), Node(8)]);
    assert!(matches!(by_key(2), SalsaDocTypeLoweredKind::Name { name } if name == "A"));
    match by_key(9) {
        SalsaDocTypeLoweredKind::Function { is_async, is_sync, params, .. } => {
            assert!(is_async && !is_sync);
            assert_eq!(params.len(), 1);
            assert_eq!(params[0].name, Some("x".to_string()));
            assert_eq!(params[0].doc_type, Node(2));
            assert!(params[0].is_nullable);
        },
        _ => panic!("not a function"),
    }
    let unnamed = build_lowered_doc_type_index(&SalsaDocTypeIndexSummary {
        types: vec![node(1, 0, 3, K::Name { name: None }), node(2, 5, 9, K::Array { item_type_offset: None })],
    });
    assert!(matches!(unnamed.types[0].kind, SalsaDocTypeLoweredKind::Unknown));
    assert!(matches!(unnamed.types[1].kind, SalsaDocTypeLoweredKind::Array { item_type: Incomplete }));
}

#[test]
fn lowered_lookups_by_offset_and_key() {
    let lowered = lowered();
    assert_eq!(find_lowered_doc_type_at(&lowered, 200).map(|n| n.key), Some(2));
    assert_eq!(find_lowered_doc_type_at(&lowered, 403).map(|n| n.key), Some(4));
    assert_eq!(find_lowered_doc_type_at(&lowered, 130).map(|n| n.key), Some(1));
    assert!(find_lowered_doc_type_at(&lowered, 99_999).is_none());
    assert!(find_lowered_doc_type_by_key(&lowered, 8).is_none());
    let docs = doc_types();
    let found = find_resolved_doc_type_by_key_from_parts(&docs, &lowered, 12).expect("both parts");
    assert_eq!(found.0.key, 12);
    assert_eq!(found.1.key, 12);
    assert!(find_resolved_doc_type_by_key_from_parts(&docs, &lowered, 8).is_none());
}

#[test]
fn truthy_falsey_and_type_guards_walk_unions() {
    let docs = doc_types();
    let lowered = lowered();
    let walk = |f: &dyn Fn(&mut Vec<u32>) -> Vec<u32>| {
        let mut visited = Vec::new();
        f(&mut visited)
    };
    assert_eq!(walk(&|v| narrow_truthy_type_offset(10, &docs, &lowered, v)), vec![12]);
    assert_eq!(walk(&|v| narrow_falsey_type_offset(10, &docs, &lowered, v)), vec![11]);
    assert_eq!(walk(&|v| narrow_type_guard_offset(10, &"A".to_string(), &docs, &lowered, v)), vec![12]);
    assert_eq!(walk(&|v| exclude_type_guard_offset(10, &"A".to_string(), &docs, &lowered, v)), vec![11]);
    assert_eq!(walk(&|v| narrow_truthy_type_offset(30, &docs, &lowered, v)), vec![12]);
    assert_eq!(walk(&|v| narrow_falsey_type_offset(30, &docs, &lowered, v)), vec![30]);
    assert_eq!(walk(&|v| exclude_type_guard_offset(30, &"A".to_string(), &docs, &lowered, v)), vec![30]);
    assert_eq!(walk(&|v| narrow_truthy_type_offset(99, &docs, &lowered, v)), vec![99]);
    assert!(walk(&|v| narrow_falsey_type_offset(99, &docs, &lowered, v)).is_empty());

    let mut visited = vec![12];
    assert!(narrow_truthy_type_offset(12, &docs, &lowered, &mut visited).is_empty());
    let mut visited = Vec::new();
    assert_eq!(narrow_truthy_type_offset(10, &docs, &lowered, &mut visited), vec![12]);
    let mut seen = visited.clone();
    seen.sort();
    assert_eq!(seen, vec![10, 11, 12]);
}

fn cat_and_dog_properties() -> SalsaPropertyQueryIndex {
    let property = |offset: u32, owner: &str, doc: u32| SalsaPropertySummary {
        syntax_offset: offset,
        owner: SalsaPropertyOwnerSummary::Type(owner.to_string()),
        key: SalsaPropertyKeySummary::Name("kind".to_string()),
        source: SalsaPropertySourceSummary::DocField,
        value_expr_syntax_id: None,
        value_expr_offset: None,
        value_result_index: 0,
        expands_multi_result_tail: false,
        doc_type_offset: Some(doc),
        source_call_syntax_id: None,
    };
    build_property_query_index(&SalsaPropertyIndexSummary {
        properties: vec![property(1, "Cat", 40), property(2, "Dog", 41)],
    })
}

#[test]
fn literal_and_field_literal_narrowing() {
    let docs = doc_types();
    let lowered = lowered();
    let props = cat_and_dog_properties();
    assert_eq!(narrow_literal_offset(20, &"a".to_string(), true, &docs, &lowered, &mut Vec::new()), vec![21]);
    assert_eq!(narrow_literal_offset(20, &"a".to_string(), false, &docs, &lowered, &mut Vec::new()), vec![22]);
    assert_eq!(narrow_literal_offset(2, &"a".to_string(), true, &docs, &lowered, &mut Vec::new()), vec![2]);
    assert_eq!(narrow_literal_offset(21, &"a".to_string(), true, &docs, &lowered, &mut vec![21]), vec![21]);
    let kind = "kind".to_string();
    let cat = "cat".to_string();
    assert_eq!(narrow_field_literal_offset(50, &kind, &cat, true, &props, &docs, &lowered, &mut Vec::new()), vec![51]);
    assert_eq!(narrow_field_literal_offset(50, &kind, &cat, false, &props, &docs, &lowered, &mut Vec::new()), vec![52]);
    assert_eq!(
        narrow_field_literal_offset(2, &kind, &cat, true, &props, &docs, &lowered, &mut Vec::new()),
        vec![2]
    );
    assert_eq!(
        narrow_field_literal_offset(51, &kind, &cat, true, &props, &docs, &lowered, &mut vec![51]),
        vec![51]
    );
    assert!(narrow_field_literal_offset(52, &kind, &cat, true, &props, &docs, &lowered, &mut vec![52]).is_empty());
}

#[test]
fn narrowings_apply_in_turn() {
    let docs = doc_types();
    let lowered = lowered();
    let props = cat_and_dog_properties();
    let truthy = vec![SalsaTypeNarrowSummary::Truthy];
    assert_eq!(narrow_type_offsets(vec![10, 20], &props, &docs, &lowered, &truthy), vec![12, 21, 22]);
    let both = vec![
        SalsaTypeNarrowSummary::Truthy,
        SalsaTypeNarrowSummary::Literal { literal_text: "a".to_string(), positive: true },
    ];
    assert_eq!(narrow_type_offsets(vec![10, 20], &props, &docs, &lowered, &both), vec![12, 21]);
    assert_eq!(narrow_type_offsets(vec![10, 20], &props, &docs, &lowered, &vec![]), vec![10, 20]);
    assert_eq!(dedupe_offsets(vec![3, 1, 3, 2, 1]), vec![3, 1, 2]);

    let candidate = SalsaTypeCandidateSummary {
        origin: SalsaTypeCandidateOriginSummary::Decl(4),
        explicit_type_offsets: vec![10],
        named_type_names: vec![],
        initializer_offset: Some(9),
        value_expr_syntax_id: None,
        value_result_index: 0,
        source_call_syntax_id: None,
        signature_offset: None,
    };
    let guard_z = vec![SalsaTypeNarrowSummary::TypeGuard { guard_name: "Z".to_string() }];
    let kept = apply_narrows_to_candidate(candidate.clone(), &props, &docs, &lowered, &guard_z);
    assert_eq!(kept.explicit_type_offsets, vec![10]);
    assert_eq!(kept.initializer_offset, Some(9));
    let guard_a = vec![SalsaTypeNarrowSummary::TypeGuard { guard_name: "A".to_string() }];
    let narrowed = apply_narrows_to_candidate(candidate, &props, &docs, &lowered, &guard_a);
    assert_eq!(narrowed.explicit_type_offsets, vec![12]);
}

fn function_returning(key: u32, rets: &[Option<u32>]) -> SalsaDocTypeNodeSummary {
    node(
        key,
        key * 100,
        key * 100 + 40,
        K::Function {
            is_async: false,
            is_sync: false,
            generic_params: vec![],
            params: vec![],
            returns: rets
                .iter()
                .map(|t| emmylua_query::doc_type::SalsaDocReturnTypeSummary { name: None, type_offset: *t })
                .collect(),
        },
    )
}

#[test]
fn iterator_slots_read_function_returns_through_operands() {
    let types = SalsaDocTypeIndexSummary {
        types: vec![
            function_returning(1, &[Some(5), Some(6)]),
            node(2, 200, 210, K::Nullable { inner_type_offset: Some(1) }),
            node(3, 300, 350, K::Binary { op: Union, left_type_offset: Some(2), right_type_offset: Some(4) }),
            function_returning(4, &[Some(7)]),
            name(5, "K"),
            name(6, "V"),
            name(7, "W"),
            node(8, 800, 810, K::Array { item_type_offset: Some(8) }),
        ],
    };
    let lowered = build_lowered_doc_type_index(&types);
    let mut visited = Vec::new();
    assert_eq!(collect_iterator_slot_offsets_from_type_offset(1, 1, &types, &lowered, &mut visited), vec![6]);
    assert_eq!(visited, vec![1]);
    let mut visited = Vec::new();
    assert_eq!(collect_iterator_slot_offsets_from_type_offset(3, 0, &types, &lowered, &mut visited), vec![5, 7]);
    let mut visited = Vec::new();
    assert_eq!(collect_iterator_slot_offsets_from_type_offset(3, 1, &types, &lowered, &mut visited), vec![6]);
    let mut visited = vec![1];
    assert_eq!(collect_iterator_slot_offsets_from_type_offset(2, 0, &types, &lowered, &mut visited), Vec::<u32>::new());
    let mut visited = Vec::new();
    assert_eq!(collect_iterator_slot_offsets_from_type_offset(8, 0, &types, &lowered, &mut visited), Vec::<u32>::new());
    let mut visited = Vec::new();
    assert_eq!(collect_iterator_slot_offsets_from_type_ref(Incomplete, 0, &types, &lowered, &mut visited), Vec::<u32>::new());
    assert_eq!(collect_iterator_slot_offsets_from_type_ref(Node(4), 0, &types, &lowered, &mut visited), vec![7]);
}

#[test]
fn a_union_lowers_beside_a_cyclic_intersection_chain() {
    let nodes = vec![
        union(1, Some(2), Some(3)),
        name(2, "A"),
        name(3, "B"),
        node(7, 700, 710, K::Binary { op: Intersection, left_type_offset: Some(8), right_type_offset: None }),
        node(8, 800, 810, K::Binary { op: Intersection, left_type_offset: Some(7), right_type_offset: None }),
    ];
    let node_index = build_doc_type_node_index(&nodes);
    let lowered = lower_doc_type_node(&nodes[0], &nodes, &node_index);
    assert_eq!(lowered.key, 1);
    assert_eq!(items(&lowered.kind), vec![Node(2), Node(3)]);
}

#[test]
fn chains_end_in_an_acyclic_file() {
    assert!(doc_type_chains_end(&doc_types()));
    assert!(doc_type_chains_end(&SalsaDocTypeIndexSummary { types: vec![] }));
}

#[test]
fn a_union_that_comes_back_to_itself_never_ends() {
    let cyclic = SalsaDocTypeIndexSummary { types: vec![union(1, Some(2), None), name(3, "A"), union(2, Some(3), Some(1))] };
    assert!(!doc_type_chains_end(&cyclic));
    let self_loop = SalsaDocTypeIndexSummary {
        types: vec![node(5, 500, 550, K::Binary { op: Intersection, left_type_offset: Some(5), right_type_offset: None })],
    };
    assert!(!doc_type_chains_end(&self_loop));
}

#[test]
fn a_cycle_through_another_operator_or_an_earlier_node_is_no_chain() {
    let through_extends = SalsaDocTypeIndexSummary {
        types: vec![
            union(1, Some(2), None),
            node(2, 200, 250, K::Binary { op: SalsaDocTypeBinaryOperatorSummary::Extends, left_type_offset: Some(1), right_type_offset: None }),
        ],
    };
    assert!(doc_type_chains_end(&through_extends));
    let shadowed = SalsaDocTypeIndexSummary { types: vec![union(1, Some(1), None), name(1, "A")] };
    assert!(doc_type_chains_end(&shadowed));
}

#[test]
fn the_node_index_keeps_the_last_node_under_a_key() {
    let nodes = vec![name(1, "A"), name(2, "B"), union(1, Some(2), None)];
    let index = build_doc_type_node_index(&nodes);
    assert_eq!(index.get(&1), Some(&2));
    assert_eq!(index.get(&2), Some(&1));
    assert_eq!(index.get(&3), None);
    assert_eq!(index.len(), 2);
}

fn lowered_node(key: u32, kind: SalsaDocTypeLoweredKind) -> SalsaDocTypeLoweredNode {
    SalsaDocTypeLoweredNode {
        key,
        syntax_offset: key * 100,
        syntax_id: SalsaSyntaxIdSummary { kind: 7, start_offset: key * 100, end_offset: key * 100 + 5 },
        kind,
    }
}

#[test]
fn resolved_doc_types_pair_each_node_with_the_last_lowered_form() {
    let doc = SalsaDocTypeIndexSummary { types: vec![name(1, "A"), name(2, "B"), union(3, Some(1), Some(2))] };
    let lowered = SalsaDocTypeLoweredIndex {
        types: vec![
            lowered_node(1, SalsaDocTypeLoweredKind::Name { name: "old".to_string() }),
            lowered_node(3, SalsaDocTypeLoweredKind::Union { item_types: vec![Node(1), Node(2)] }),
            lowered_node(1, SalsaDocTypeLoweredKind::Name { name: "A".to_string() }),
        ],
    };
    let resolved = build_resolved_doc_type_index(&doc, &lowered);
    assert_eq!(resolved.types.iter().map(|t| t.type_key).collect::<Vec<_>>(), vec![1, 3]);
    assert_eq!(resolved.types[0].syntax_offset, 100);
    match &resolved.types[0].lowered.kind {
        SalsaDocTypeLoweredKind::Name { name } => assert_eq!(name, "A"),
        _ => panic!("not a name"),
    }
    match &resolved.types[0].doc_type.kind {
        K::Name { name } => assert_eq!(name.as_deref(), Some("A")),
        _ => panic!("not a name"),
    }
    assert_eq!(items(&resolved.types[1].lowered.kind), vec![Node(1), Node(2)]);
    assert!(build_resolved_doc_type_index(&doc, &SalsaDocTypeLoweredIndex { types: vec![] }).types.is_empty());
}

#[test]
fn a_narrow_matches_the_types_it_keeps() {
    let docs = doc_types();
    let lowered = lowered();
    let props = cat_and_dog_properties();
    let truthy = SalsaTypeNarrowSummary::Truthy;
    assert!(narrow_matches_type_offset(12, &truthy, &props, &docs, &lowered));
    assert!(!narrow_matches_type_offset(11, &truthy, &props, &docs, &lowered));
    let a = SalsaTypeNarrowSummary::Literal { literal_text: "a".to_string(), positive: true };
    assert!(narrow_matches_type_offset(21, &a, &props, &docs, &lowered));
    assert!(!narrow_matches_type_offset(22, &a, &props, &docs, &lowered));
}
