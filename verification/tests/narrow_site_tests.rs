use emmylua_query::assignments::SalsaNameRefSummary;
use emmylua_query::decls::{SalsaDeclKindSummary, SalsaDeclSummary, SalsaDeclTreeSummary, SalsaScopeSummary};
use emmylua_query::doc_diagnostics::SalsaTextRangeSummary;
use emmylua_query::narrow::SalsaTypeNarrowSummary;
use emmylua_query::narrow_sites::{
    SalsaAssertSiteSummary, SalsaConditionOpSummary, SalsaConditionSummary, SalsaExitBlockSummary,
    SalsaExitStatSummary, SalsaGuardSiteSummary, SalsaIfClauseSiteSummary, SalsaIfSiteSummary,
    SalsaNarrowSiteIndexSummary, block_guarantees_exit, collect_active_type_narrows,
    collect_condition_narrows_for_expr,
};

use SalsaConditionSummary as C;

fn tree() -> SalsaDeclTreeSummary {
    SalsaDeclTreeSummary {
        decls: vec![SalsaDeclSummary {
            id: 1,
            name: "x".to_string(),
            kind: SalsaDeclKindSummary::Local { attrib: None },
            scope_id: 0,
            start_offset: 5,
            value_expr_offset: None,
            value_expr_syntax_id: None,
            value_result_index: 0,
            source_call_syntax_id: None,
        }],
        scopes: vec![SalsaScopeSummary { id: 0, start_offset: 0, end_offset: 100, parent: None }],
    }
}

fn name(n: &str, offset: u32) -> C {
    C::Name { name: SalsaNameRefSummary { name: n.to_string(), syntax_offset: offset } }
}

fn lit(text: &str) -> C {
    C::Literal { text: text.to_string(), string_value: None }
}

fn bin(op: SalsaConditionOpSummary, l: C, r: C) -> C {
    C::Binary { op, left: Box::new(l), right: Box::new(r) }
}

fn show(v: &Vec<SalsaTypeNarrowSummary>) -> String {
    format!("{:?}", v)
}

fn narrows(c: &C, positive: bool) -> String {
    show(&collect_condition_narrows_for_expr(&tree(), c, 1, positive))
}

#[test]
fn conditions_narrow_the_name_they_test() {
    assert_eq!(narrows(&name("x", 20), true), "[Truthy]");
    assert_eq!(narrows(&name("x", 20), false), "[Falsey]");
    assert_eq!(narrows(&name("y", 20), true), "[]");
    assert_eq!(narrows(&C::Not { inner: Some(Box::new(name("x", 20))) }, true), "[Falsey]");
    let both = bin(SalsaConditionOpSummary::And, name("x", 20), bin(SalsaConditionOpSummary::Eq, name("x", 30), lit("1")));
    assert_eq!(narrows(&both, true), "[Truthy, Literal { literal_text: \"1\", positive: true }]");
    assert_eq!(narrows(&both, false), "[]");
    let either = bin(SalsaConditionOpSummary::Or, name("x", 20), bin(SalsaConditionOpSummary::Eq, name("x", 30), lit("1")));
    assert_eq!(narrows(&either, false), "[Falsey, Literal { literal_text: \"1\", positive: false }]");
    assert_eq!(narrows(&either, true), "[]");
    let not_nil = bin(SalsaConditionOpSummary::Ne, lit("nil"), name("x", 20));
    assert_eq!(narrows(&not_nil, true), "[Literal { literal_text: \"nil\", positive: false }]");
}

#[test]
fn comparisons_narrow_fields_and_types() {
    let field = bin(
        SalsaConditionOpSummary::Eq,
        C::Index { prefix: Some(Box::new(C::Paren { inner: Some(Box::new(name("x", 20))) })), member_name: Some("kind".to_string()) },
        lit("'a'"),
    );
    assert_eq!(
        narrows(&field, true),
        "[FieldLiteral { member_name: \"kind\", literal_text: \"'a'\", positive: true }]"
    );
    let type_of = |op| {
        bin(
            op,
            C::TypeCall { first_arg: Some(Box::new(name("x", 20))) },
            C::Literal { text: "\"string\"".to_string(), string_value: Some("string".to_string()) },
        )
    };
    assert_eq!(narrows(&type_of(SalsaConditionOpSummary::Eq), true), "[TypeGuard { guard_name: \"string\" }]");
    assert_eq!(narrows(&type_of(SalsaConditionOpSummary::Ne), true), "[ExcludeTypeGuard { guard_name: \"string\" }]");
    let number_literal = bin(SalsaConditionOpSummary::Eq, C::TypeCall { first_arg: Some(Box::new(name("x", 20))) }, lit("1"));
    assert_eq!(narrows(&number_literal, true), "[]");
}

fn range(start: u32, end: u32) -> SalsaTextRangeSummary {
    SalsaTextRangeSummary { start, end }
}

fn exits_with(stat: SalsaExitStatSummary) -> SalsaExitBlockSummary {
    SalsaExitBlockSummary { last_stat: Some(Box::new(stat)) }
}

fn sites(then_last: SalsaExitStatSummary) -> SalsaNarrowSiteIndexSummary {
    SalsaNarrowSiteIndexSummary {
        blocks: vec![range(0, 100), range(25, 35), range(40, 50), range(55, 60), range(63, 68)],
        if_sites: vec![SalsaIfSiteSummary {
            clauses: vec![
                SalsaIfClauseSiteSummary { block: Some(range(25, 35)), condition: Some(name("x", 22)) },
                SalsaIfClauseSiteSummary {
                    block: Some(range(40, 50)),
                    condition: Some(bin(SalsaConditionOpSummary::Eq, name("x", 38), lit("2"))),
                },
            ],
            else_block: Some(Some(range(55, 60))),
        }],
        guard_sites: vec![SalsaGuardSiteSummary {
            block: range(0, 100),
            syntax_offset: 62,
            end_offset: 69,
            has_other_clauses: false,
            then_block: Some(exits_with(then_last)),
            condition: Some(name("x", 63)),
        }],
        assert_sites: vec![SalsaAssertSiteSummary { syntax_offset: 72, block: Some(range(0, 100)), first_arg: Some(name("x", 74)) }],
    }
}

fn active(p: u32, then_last: SalsaExitStatSummary) -> String {
    show(&collect_active_type_narrows(&tree(), &sites(then_last), 1, p))
}

#[test]
fn active_narrows_follow_clauses_guards_and_asserts() {
    assert_eq!(active(30, SalsaExitStatSummary::Return), "[Truthy]");
    assert_eq!(active(45, SalsaExitStatSummary::Return), "[Falsey, Literal { literal_text: \"2\", positive: true }]");
    assert_eq!(active(57, SalsaExitStatSummary::Return), "[Falsey, Literal { literal_text: \"2\", positive: false }]");
    assert_eq!(active(70, SalsaExitStatSummary::Return), "[Falsey]");
    assert_eq!(active(80, SalsaExitStatSummary::Return), "[Falsey, Truthy]");
    assert_eq!(active(80, SalsaExitStatSummary::Other), "[Truthy]");
    assert_eq!(active(200, SalsaExitStatSummary::Return), "[]");
}

#[test]
fn blocks_leave_when_every_path_leaves() {
    assert!(block_guarantees_exit(&exits_with(SalsaExitStatSummary::Break)));
    assert!(block_guarantees_exit(&exits_with(SalsaExitStatSummary::Do {
        block: Some(Box::new(exits_with(SalsaExitStatSummary::ErrorCall))),
    })));
    let both = SalsaExitStatSummary::If {
        then_block: Some(Box::new(exits_with(SalsaExitStatSummary::Return))),
        else_if_blocks: vec![Some(exits_with(SalsaExitStatSummary::Return))],
        else_clause: Some(Some(Box::new(exits_with(SalsaExitStatSummary::Return)))),
    };
    assert!(block_guarantees_exit(&exits_with(both)));
    let no_else = SalsaExitStatSummary::If {
        then_block: Some(Box::new(exits_with(SalsaExitStatSummary::Return))),
        else_if_blocks: vec![],
        else_clause: None,
    };
    assert!(!block_guarantees_exit(&exits_with(no_else)));
    assert!(!block_guarantees_exit(&SalsaExitBlockSummary { last_stat: None }));
}
