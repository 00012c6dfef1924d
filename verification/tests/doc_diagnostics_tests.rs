use emmylua_query::doc_diagnostics::{
    SalsaDocCommentSummary, SalsaDocOwnerNodeSummary, SalsaResolvedDocDiagnosticActionSummary, SalsaTextRangeSummary,
    collect_resolved_doc_tag_diagnostics_for_property,
};
use emmylua_query::doc_tag::{
    SalsaDocDiagnosticActionKindSummary, SalsaDocDiagnosticActionSummary, SalsaDocOwnerKindSummary,
    SalsaDocOwnerSummary, SalsaDocTagPropertyEntrySummary, SalsaDocTagPropertySummary,
};

use SalsaDocDiagnosticActionKindSummary::{Disable, DisableLine, DisableNextLine, Enable};

// Lines of TEXT start at 0, 2, 7 and 9; it is 10 bytes long.
const TEXT: &str = "a\n-- c\nb\nc";

fn range(start: u32, end: u32) -> SalsaTextRangeSummary {
    SalsaTextRangeSummary { start, end }
}

fn action(offset: u32, kind: SalsaDocDiagnosticActionKindSummary, code: Option<&str>) -> SalsaDocDiagnosticActionSummary {
    SalsaDocDiagnosticActionSummary { syntax_offset: offset, kind, code_name: code.map(|c| c.to_string()) }
}

fn property(owner: Option<u32>, entries: Vec<SalsaDocTagPropertyEntrySummary>) -> SalsaDocTagPropertySummary {
    SalsaDocTagPropertySummary {
        owner: SalsaDocOwnerSummary { kind: SalsaDocOwnerKindSummary::LocalStat, syntax_offset: owner },
        entries,
    }
}

fn comments() -> Vec<SalsaDocCommentSummary> {
    vec![
        SalsaDocCommentSummary { range: range(2, 6), diagnostic_offsets: vec![3, 4] },
        SalsaDocCommentSummary { range: range(9, 10), diagnostic_offsets: vec![9] },
    ]
}

fn nodes() -> Vec<SalsaDocOwnerNodeSummary> {
    vec![
        SalsaDocOwnerNodeSummary { kind: SalsaDocOwnerKindSummary::AssignStat, syntax_offset: 7, range: range(7, 9) },
        SalsaDocOwnerNodeSummary { kind: SalsaDocOwnerKindSummary::LocalStat, syntax_offset: 7, range: range(7, 8) },
    ]
}

fn resolved(offset: u32, kind: SalsaDocDiagnosticActionKindSummary, code: Option<&str>, r: SalsaTextRangeSummary) -> SalsaResolvedDocDiagnosticActionSummary {
    SalsaResolvedDocDiagnosticActionSummary { syntax_offset: offset, kind, code_name: code.map(|c| c.to_string()), range: r }
}

#[test]
fn line_actions_cover_the_comment_line_or_run_to_the_next() {
    let p = property(
        Some(7),
        vec![
            SalsaDocTagPropertyEntrySummary::Diagnostic(vec![action(3, DisableNextLine, Some("undefined-global"))]),
            SalsaDocTagPropertyEntrySummary::Deprecated(None),
            SalsaDocTagPropertyEntrySummary::Diagnostic(vec![action(4, DisableLine, None)]),
        ],
    );
    let r = collect_resolved_doc_tag_diagnostics_for_property(&p, &comments(), &nodes(), TEXT);
    assert_eq!(
        r,
        vec![
            resolved(3, DisableNextLine, Some("undefined-global"), range(2, 9)),
            resolved(4, DisableLine, None, range(2, 7)),
        ]
    );
}

#[test]
fn disable_covers_the_owner_or_the_whole_file() {
    let found = property(Some(7), vec![SalsaDocTagPropertyEntrySummary::Diagnostic(vec![action(3, Disable, None)])]);
    let r = collect_resolved_doc_tag_diagnostics_for_property(&found, &comments(), &nodes(), TEXT);
    assert_eq!(r, vec![resolved(3, Disable, None, range(7, 8))]);
    let missing = property(Some(8), vec![SalsaDocTagPropertyEntrySummary::Diagnostic(vec![action(3, Disable, None)])]);
    let r = collect_resolved_doc_tag_diagnostics_for_property(&missing, &comments(), &nodes(), TEXT);
    assert_eq!(r, vec![resolved(3, Disable, None, range(0, 10))]);
}

#[test]
fn enable_covers_the_comment_or_the_whole_file_without_owner() {
    let owned = property(Some(7), vec![SalsaDocTagPropertyEntrySummary::Diagnostic(vec![action(3, Enable, None)])]);
    let r = collect_resolved_doc_tag_diagnostics_for_property(&owned, &comments(), &nodes(), TEXT);
    assert_eq!(r, vec![resolved(3, Enable, None, range(2, 6))]);
    let ownerless = property(None, vec![SalsaDocTagPropertyEntrySummary::Diagnostic(vec![action(3, Enable, None)])]);
    let r = collect_resolved_doc_tag_diagnostics_for_property(&ownerless, &comments(), &nodes(), TEXT);
    assert_eq!(r, vec![resolved(3, Enable, None, range(0, 10))]);
}

#[test]
fn actions_without_a_comment_or_a_next_line_are_dropped() {
    let p = property(
        Some(7),
        vec![SalsaDocTagPropertyEntrySummary::Diagnostic(vec![
            action(99, Disable, None),
            action(9, DisableNextLine, None),
            action(9, DisableLine, None),
        ])],
    );
    let r = collect_resolved_doc_tag_diagnostics_for_property(&p, &comments(), &nodes(), TEXT);
    assert_eq!(r, vec![resolved(9, DisableLine, None, range(9, 10))]);
}

#[test]
fn a_file_without_newlines_is_one_line() {
    let p = property(Some(7), vec![SalsaDocTagPropertyEntrySummary::Diagnostic(vec![action(1, DisableLine, None)])]);
    let one = vec![SalsaDocCommentSummary { range: range(0, 4), diagnostic_offsets: vec![1] }];
    let r = collect_resolved_doc_tag_diagnostics_for_property(&p, &one, &vec![], "-- x");
    assert_eq!(r, vec![resolved(1, DisableLine, None, range(0, 4))]);
    assert!(collect_resolved_doc_tag_diagnostics_for_property(&p, &one, &vec![], "").is_empty());
}
