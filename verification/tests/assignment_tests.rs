use emmylua_query::assignments::{
    SalsaLocalAssignmentQueryIndex, SalsaLocalAssignmentSummary, dedupe_local_assignments, find_latest_local_assignment,
};

fn assignment(decl_id: u32, offset: u32, result_index: usize) -> SalsaLocalAssignmentSummary {
    SalsaLocalAssignmentSummary {
        decl_id,
        syntax_offset: offset,
        is_local_declaration: false,
        value_expr_syntax_id: None,
        value_expr_offset: Some(offset + 4),
        value_result_index: result_index,
        source_decl_id: None,
        source_call_syntax_id: None,
    }
}

#[test]
fn latest_assignment_is_the_furthest_before_the_point() {
    let index = SalsaLocalAssignmentQueryIndex {
        assignments: vec![assignment(1, 10, 0), assignment(2, 20, 0), assignment(1, 30, 0), assignment(1, 50, 0)],
    };
    assert_eq!(find_latest_local_assignment(&index, 1, 40).map(|a| a.syntax_offset), Some(30));
    assert_eq!(find_latest_local_assignment(&index, 1, 30).map(|a| a.syntax_offset), Some(10));
    assert_eq!(find_latest_local_assignment(&index, 1, 60).map(|a| a.syntax_offset), Some(50));
    assert!(find_latest_local_assignment(&index, 1, 10).is_none());
    assert!(find_latest_local_assignment(&index, 3, 100).is_none());
}

#[test]
fn of_assignments_at_one_offset_the_last_listed_wins() {
    let index = SalsaLocalAssignmentQueryIndex { assignments: vec![assignment(1, 10, 0), assignment(1, 10, 1)] };
    assert_eq!(find_latest_local_assignment(&index, 1, 11).map(|a| a.value_result_index), Some(1));
}

#[test]
fn dedupe_keeps_each_assignment_where_it_first_occurs() {
    let a = assignment(1, 10, 0);
    let b = assignment(1, 10, 1);
    let c = assignment(2, 20, 0);
    let r = dedupe_local_assignments(vec![a, b, a, c, b]);
    assert_eq!(r, vec![a, b, c]);
    assert!(dedupe_local_assignments(vec![]).is_empty());
}

use emmylua_query::assignment_flow::{
    SalsaBlockStatKindSummary, SalsaBlockStatSummary, SalsaBlockSummary, collect_assignments_in_block_until_point,
    innermost_block_at_offset, latest_assignments_at_program_point,
};
use emmylua_query::assignments::{
    SalsaAssignStatSummary, SalsaAssignValueSummary, SalsaNameRefSummary, build_local_assignment_query_index,
};
use emmylua_query::decls::{SalsaDeclKindSummary, SalsaDeclSummary, SalsaDeclTreeSummary, SalsaScopeSummary};
use emmylua_query::type_info::SalsaSyntaxIdSummary;

fn sid(start: u32, end: u32) -> SalsaSyntaxIdSummary {
    SalsaSyntaxIdSummary { kind: 0x8000, start_offset: start, end_offset: end }
}

fn decl(id: u32, name: &str, kind: SalsaDeclKindSummary, start: u32) -> SalsaDeclSummary {
    SalsaDeclSummary {
        id,
        name: name.to_string(),
        kind,
        scope_id: 0,
        start_offset: start,
        value_expr_offset: None,
        value_expr_syntax_id: None,
        value_result_index: 0,
        source_call_syntax_id: None,
    }
}

fn tree() -> SalsaDeclTreeSummary {
    SalsaDeclTreeSummary {
        decls: vec![
            decl(3, "g", SalsaDeclKindSummary::Global, 0),
            decl(1, "x", SalsaDeclKindSummary::Local { attrib: None }, 5),
            decl(2, "y", SalsaDeclKindSummary::Local { attrib: None }, 5),
            decl(4, "w", SalsaDeclKindSummary::Local { attrib: None }, 56),
        ],
        scopes: vec![SalsaScopeSummary { id: 0, start_offset: 0, end_offset: 100, parent: None }],
    }
}

fn name_ref(name: &str, offset: u32) -> Option<SalsaNameRefSummary> {
    Some(SalsaNameRefSummary { name: name.to_string(), syntax_offset: offset })
}

fn value(start: u32, end: u32, call: bool, source: Option<SalsaNameRefSummary>) -> SalsaAssignValueSummary {
    SalsaAssignValueSummary {
        syntax_id: sid(start, end),
        syntax_offset: start,
        call_syntax_id: if call { Some(sid(start, end)) } else { None },
        source_name: source,
    }
}

#[test]
fn assignments_follow_targets_and_values() {
    let stats = vec![
        SalsaAssignStatSummary {
            syntax_offset: 5,
            is_local: true,
            targets: vec![name_ref("x", 6), name_ref("y", 9)],
            values: vec![value(13, 16, true, None), value(18, 19, false, name_ref("z", 18))],
        },
        SalsaAssignStatSummary {
            syntax_offset: 30,
            is_local: false,
            targets: vec![name_ref("x", 30), name_ref("y", 33), name_ref("g", 36), None],
            values: vec![value(40, 41, false, name_ref("x", 40))],
        },
        SalsaAssignStatSummary { syntax_offset: 50, is_local: true, targets: vec![name_ref("w", 56)], values: vec![] },
    ];
    let index = build_local_assignment_query_index(&tree(), &stats);
    let a = &index.assignments;
    assert_eq!(a.len(), 5);
    assert_eq!((a[0].decl_id, a[0].is_local_declaration, a[0].value_expr_offset), (1, true, Some(13)));
    assert_eq!(a[0].source_call_syntax_id, Some(sid(13, 16)));
    assert_eq!((a[1].decl_id, a[1].value_expr_offset, a[1].source_decl_id), (2, Some(18), None));
    assert_eq!((a[2].decl_id, a[2].syntax_offset, a[2].value_result_index, a[2].source_decl_id), (1, 30, 0, Some(1)));
    assert_eq!((a[3].decl_id, a[3].value_expr_offset, a[3].value_result_index), (2, Some(40), 1));
    assert_eq!((a[4].decl_id, a[4].value_expr_offset, a[4].value_result_index), (4, None, 0));
}

fn block(start: u32, end: u32, stats: Vec<SalsaBlockStatSummary>) -> SalsaBlockSummary {
    SalsaBlockSummary { start_offset: start, end_offset: end, stats }
}

fn stat(offset: u32, end: u32, kind: SalsaBlockStatKindSummary, nested: Vec<SalsaBlockSummary>) -> SalsaBlockStatSummary {
    SalsaBlockStatSummary { syntax_offset: offset, end_offset: end, kind, nested_blocks: nested }
}

fn file() -> SalsaBlockSummary {
    block(
        0,
        100,
        vec![
            stat(10, 15, SalsaBlockStatKindSummary::Assign, vec![]),
            stat(
                20,
                50,
                SalsaBlockStatKindSummary::If {
                    clause_blocks: vec![Some(block(25, 35, vec![stat(30, 33, SalsaBlockStatKindSummary::Assign, vec![])]))],
                    else_clause: None,
                },
                vec![],
            ),
            stat(
                55,
                70,
                SalsaBlockStatKindSummary::Do {
                    block: Some(block(58, 68, vec![stat(60, 63, SalsaBlockStatKindSummary::Assign, vec![])])),
                },
                vec![],
            ),
            stat(
                75,
                95,
                SalsaBlockStatKindSummary::Other,
                vec![block(78, 90, vec![stat(80, 83, SalsaBlockStatKindSummary::Assign, vec![])])],
            ),
        ],
    )
}

fn flow_assignments() -> SalsaLocalAssignmentQueryIndex {
    SalsaLocalAssignmentQueryIndex {
        assignments: vec![assignment(1, 10, 0), assignment(1, 30, 0), assignment(1, 60, 0), assignment(1, 80, 0)],
    }
}

fn reaching(p: u32) -> Option<Vec<u32>> {
    latest_assignments_at_program_point(&file(), &flow_assignments(), 1, p).map(|v| v.iter().map(|a| a.syntax_offset).collect())
}

#[test]
fn assignments_reach_through_blocks() {
    assert_eq!(reaching(15), Some(vec![10]));
    assert_eq!(reaching(32), Some(vec![30]));
    assert_eq!(reaching(52), Some(vec![30, 10]));
    assert_eq!(reaching(72), Some(vec![60]));
    assert_eq!(reaching(85), Some(vec![80]));
    assert_eq!(reaching(79), Some(vec![60]));
    assert_eq!(reaching(200), None);
    assert_eq!(latest_assignments_at_program_point(&file(), &flow_assignments(), 2, 15).map(|v| v.len()), None);
}

#[test]
fn innermost_block_is_the_tightest_around_the_point() {
    let f = file();
    assert_eq!(innermost_block_at_offset(&f, 32).map(|b| b.start_offset), Some(25));
    assert_eq!(innermost_block_at_offset(&f, 85).map(|b| b.start_offset), Some(78));
    assert_eq!(innermost_block_at_offset(&f, 52).map(|b| b.start_offset), Some(0));
    assert!(innermost_block_at_offset(&f, 100).is_none());
    let from_start = collect_assignments_in_block_until_point(&f, 100, &flow_assignments().assignments, 1, vec![]);
    assert_eq!(from_start.iter().map(|a| a.syntax_offset).collect::<Vec<_>>(), vec![60]);
}
