//! Where the `---@diagnostic` actions of an owner apply: `disable` covers the
//! statement the comment documents (the whole file where there is none),
//! `disable-next-line` runs from the comment to the end of the line after it,
//! `disable-line` covers the comment's last line, and `enable` covers the
//! comment (the whole file for a comment that documents nothing). Lines are
//! found with the parser crate's line index.
use vstd::prelude::*;
use vstd::string::StringSliceAdditionalSpecFns;

use emmylua_parser::LineIndex;

use crate::doc_tag::{
    EntryView, DocPropertyView, SalsaDocDiagnosticActionKindSummary, SalsaDocDiagnosticActionSummary,
    SalsaDocOwnerKindSummary, SalsaDocOwnerSummary, SalsaDocTagPropertyEntrySummary, SalsaDocTagPropertySummary,
};
use crate::uses::clone_opt_string;

verus! {

#[verifier::external_type_specification]
#[verifier::external_body]
pub struct ExLineIndex(LineIndex);

/// The offsets at which the lines of a line index start, in order.
pub uninterp spec fn line_index_starts(index: LineIndex) -> Seq<u32>;

/// A range of text, from `start` up to `end`.
#[derive(Clone, Copy, Debug, PartialEq, Eq, Structural)]
pub struct SalsaTextRangeSummary {
    pub start: u32,
    pub end: u32,
}

/// A doc comment of the file: the text it covers and the offsets of the
/// `---@diagnostic` tags written in it.
#[derive(Clone, Debug)]
pub struct SalsaDocCommentSummary {
    pub range: SalsaTextRangeSummary,
    pub diagnostic_offsets: Vec<u32>,
}

/// A syntax node that a doc comment can document: its kind, where it starts,
/// and the text it covers.
#[derive(Clone, Copy, Debug, PartialEq, Eq, Structural)]
pub struct SalsaDocOwnerNodeSummary {
    pub kind: SalsaDocOwnerKindSummary,
    pub syntax_offset: u32,
    pub range: SalsaTextRangeSummary,
}

/// A `---@diagnostic` action with the text it applies to.
#[derive(Clone, Debug, PartialEq, Eq)]
pub struct SalsaResolvedDocDiagnosticActionSummary {
    pub syntax_offset: u32,
    pub kind: SalsaDocDiagnosticActionKindSummary,
    pub code_name: Option<String>,
    pub range: SalsaTextRangeSummary,
}

/// Where the lines of a text start: at 0, and just after each `\n` byte.
pub open spec fn line_starts(bytes: Seq<u8>) -> Seq<u32>
    decreases bytes.len(),
{
    if bytes.len() == 0 {
        seq![0u32]
    } else {
        let prev = line_starts(bytes.drop_last());
        if bytes.last() == 10u8 {
            prev.push(bytes.len() as u32)
        } else {
            prev
        }
    }
}

pub open spec fn non_decreasing(s: Seq<u32>) -> bool {
    forall|i: int, j: int| 0 <= i <= j < s.len() ==> s[i] <= s[j]
}

/// How many of `starts` are at or before `offset`.
pub open spec fn count_at_or_before(starts: Seq<u32>, offset: u32) -> nat
    decreases starts.len(),
{
    if starts.len() == 0 {
        0
    } else {
        count_at_or_before(starts.drop_last(), offset) + if starts.last() <= offset { 1nat } else { 0nat }
    }
}

/// The line (from 0) that holds `offset`: the last whose start is at or before it.
pub open spec fn line_of(starts: Seq<u32>, offset: u32) -> Option<int> {
    let c = count_at_or_before(starts, offset);
    if c == 0 { None } else { Some(c - 1) }
}

/// The text of line `line`: up to the start of the next line, or, for the last
/// line, up to the end of the text where it is not empty.
pub open spec fn line_range(starts: Seq<u32>, text_len: u32, line: int) -> Option<SalsaTextRangeSummary> {
    if 0 <= line < starts.len() {
        if line + 1 < starts.len() {
            Some(SalsaTextRangeSummary { start: starts[line], end: starts[line + 1] })
        } else if text_len > starts[line] {
            Some(SalsaTextRangeSummary { start: starts[line], end: text_len })
        } else {
            None
        }
    } else {
        None
    }
}

/// The range of the first comment that holds a `---@diagnostic` tag at `offset`.
pub open spec fn comment_range_of(comments: Seq<SalsaDocCommentSummary>, offset: u32) -> Option<SalsaTextRangeSummary>
    decreases comments.len(),
{
    if comments.len() == 0 {
        None
    } else if comments[0].diagnostic_offsets@.contains(offset) {
        Some(comments[0].range)
    } else {
        comment_range_of(comments.drop_first(), offset)
    }
}

/// The first node of the owner's kind that starts where the owner does.
pub open spec fn first_owner_node(nodes: Seq<SalsaDocOwnerNodeSummary>, owner: SalsaDocOwnerSummary, offset: u32) -> Option<SalsaTextRangeSummary>
    decreases nodes.len(),
{
    if nodes.len() == 0 {
        None
    } else if nodes[0].kind == owner.kind && nodes[0].syntax_offset == offset {
        Some(nodes[0].range)
    } else {
        first_owner_node(nodes.drop_first(), owner, offset)
    }
}

/// The text the owner of a comment covers, where it has a node of its own.
pub open spec fn owner_range(nodes: Seq<SalsaDocOwnerNodeSummary>, owner: SalsaDocOwnerSummary) -> Option<SalsaTextRangeSummary> {
    match owner.syntax_offset {
        None => None,
        Some(offset) => match owner.kind {
            SalsaDocOwnerKindSummary::NoOwner | SalsaDocOwnerKindSummary::Other => None,
            _ => first_owner_node(nodes, owner, offset),
        },
    }
}

/// A `---@diagnostic` action with the text it applies to, where its comment is
/// found and, for the line forms, where the lines it names exist.
pub open spec fn resolve_action(
    action: SalsaDocDiagnosticActionSummary,
    owner: SalsaDocOwnerSummary,
    comments: Seq<SalsaDocCommentSummary>,
    nodes: Seq<SalsaDocOwnerNodeSummary>,
    starts: Seq<u32>,
    text_len: u32,
) -> Option<SalsaResolvedDocDiagnosticActionSummary> {
    let whole = SalsaTextRangeSummary { start: 0, end: text_len };
    match comment_range_of(comments, action.syntax_offset) {
        None => None,
        Some(comment) => {
            let range = match action.kind {
                SalsaDocDiagnosticActionKindSummary::Disable => match owner_range(nodes, owner) {
                    Some(r) => Some(r),
                    None => Some(whole),
                },
                SalsaDocDiagnosticActionKindSummary::DisableNextLine => match line_of(starts, comment.end) {
                    Some(line) => match line_range(starts, text_len, line + 1) {
                        Some(next) => Some(SalsaTextRangeSummary { start: comment.start, end: next.end }),
                        None => None,
                    },
                    None => None,
                },
                SalsaDocDiagnosticActionKindSummary::DisableLine => match line_of(starts, comment.end) {
                    Some(line) => line_range(starts, text_len, line),
                    None => None,
                },
                SalsaDocDiagnosticActionKindSummary::Enable => if owner.syntax_offset.is_none() {
                    Some(whole)
                } else {
                    Some(comment)
                },
            };
            match range {
                Some(range) => Some(
                    SalsaResolvedDocDiagnosticActionSummary {
                        syntax_offset: action.syntax_offset,
                        kind: action.kind,
                        code_name: action.code_name,
                        range,
                    },
                ),
                None => None,
            }
        },
    }
}

/// The actions that resolve, in order.
pub open spec fn resolve_actions(
    actions: Seq<SalsaDocDiagnosticActionSummary>,
    owner: SalsaDocOwnerSummary,
    comments: Seq<SalsaDocCommentSummary>,
    nodes: Seq<SalsaDocOwnerNodeSummary>,
    starts: Seq<u32>,
    text_len: u32,
) -> Seq<SalsaResolvedDocDiagnosticActionSummary>
    decreases actions.len(),
{
    if actions.len() == 0 {
        Seq::empty()
    } else {
        let prev = resolve_actions(actions.drop_last(), owner, comments, nodes, starts, text_len);
        match resolve_action(actions.last(), owner, comments, nodes, starts, text_len) {
            Some(r) => prev.push(r),
            None => prev,
        }
    }
}

/// The `---@diagnostic` actions of a property's entries, in order.
pub open spec fn diagnostic_actions_of(entries: Seq<EntryView>) -> Seq<SalsaDocDiagnosticActionSummary>
    decreases entries.len(),
{
    if entries.len() == 0 {
        Seq::empty()
    } else {
        let prev = diagnostic_actions_of(entries.drop_last());
        match entries.last() {
            EntryView::Diagnostic(d) => prev + d,
            _ => prev,
        }
    }
}

/// The `---@diagnostic` actions of a property, each with the text it applies to.
pub open spec fn spec_resolved_diagnostics(
    property: DocPropertyView,
    comments: Seq<SalsaDocCommentSummary>,
    nodes: Seq<SalsaDocOwnerNodeSummary>,
    bytes: Seq<u8>,
) -> Seq<SalsaResolvedDocDiagnosticActionSummary> {
    resolve_actions(
        diagnostic_actions_of(property.entries),
        property.owner,
        comments,
        nodes,
        line_starts(bytes),
        bytes.len() as u32,
    )
}

/// `LineIndex::parse`: the index of the lines of `text`, which start at 0 and
/// just after each `\n` byte.
#[verifier::external_body]
fn line_index_parse(text: &str) -> (r: LineIndex)
    ensures
        line_index_starts(r) == line_starts(text.spec_bytes()),
{
    LineIndex::parse(text)
}

/// `LineIndex::get_line_offset`: where line `line` starts, if the text has it.
#[verifier::external_body]
fn line_index_line_start(index: &LineIndex, line: usize) -> (r: Option<u32>)
    ensures
        r == (if line < line_index_starts(*index).len() {
            Some(line_index_starts(*index)[line as int])
        } else {
            None
        }),
{
    index.get_line_offset(line).map(u32::from)
}

/// `LineIndex::get_line`: the line that holds `offset`, found by partition over
/// the line starts; where they are in order, the last line that starts at or
/// before it. Of starts out of order nothing is said.
#[verifier::external_body]
fn line_index_line_of(index: &LineIndex, offset: u32) -> (r: Option<usize>)
    ensures
        non_decreasing(line_index_starts(*index)) ==> match r {
            Some(l) => line_of(line_index_starts(*index), offset) == Some(l as int),
            None => line_of(line_index_starts(*index), offset).is_none(),
        },
{
    index.get_line(rowan::TextSize::from(offset))
}

proof fn lemma_line_starts_ordered(bytes: Seq<u8>)
    requires
        bytes.len() <= u32::MAX,
    ensures
        non_decreasing(line_starts(bytes)),
        line_starts(bytes).len() >= 1,
        line_starts(bytes)[0] == 0,
        forall|i: int| 0 <= i < line_starts(bytes).len() ==> line_starts(bytes)[i] <= bytes.len(),
        line_starts(bytes).len() <= bytes.len() + 1,
    decreases bytes.len(),
{
    if bytes.len() > 0 {
        lemma_line_starts_ordered(bytes.drop_last());
    }
}

proof fn lemma_count_bounds(starts: Seq<u32>, offset: u32)
    requires
        starts.len() >= 1,
        starts[0] == 0,
    ensures
        1 <= count_at_or_before(starts, offset) <= starts.len(),
    decreases starts.len(),
{
    if starts.len() > 1 {
        assert(starts.drop_last()[0] == starts[0]);
        lemma_count_bounds(starts.drop_last(), offset);
    } else {
        assert(count_at_or_before(starts.drop_last(), offset) == 0);
    }
}

fn line_range_at(index: &LineIndex, text_len: u32, line: usize) -> (r: Option<SalsaTextRangeSummary>)
    requires
        line_index_starts(*index).len() <= usize::MAX + 1,
    ensures
        r == line_range(line_index_starts(*index), text_len, line as int),
{
    let start = match line_index_line_start(index, line) {
        Some(s) => s,
        None => return None,
    };
    let next = if line < usize::MAX {
        line_index_line_start(index, line + 1)
    } else {
        None
    };
    match next {
        Some(end) => Some(SalsaTextRangeSummary { start, end }),
        None => if text_len > start {
            Some(SalsaTextRangeSummary { start, end: text_len })
        } else {
            None
        },
    }
}

fn holds_offset(v: &Vec<u32>, x: u32) -> (r: bool)
    ensures
        r == v@.contains(x),
{
    let mut i: usize = 0;
    while i < v.len()
        invariant
            i <= v@.len(),
            forall|k: int| 0 <= k < i ==> v@[k] != x,
        decreases v@.len() - i,
    {
        if v[i] == x {
            return true;
        }
        i = i + 1;
    }
    false
}

fn find_comment_range(comments: &Vec<SalsaDocCommentSummary>, offset: u32) -> (r: Option<SalsaTextRangeSummary>)
    ensures
        r == comment_range_of(comments@, offset),
{
    let mut i: usize = 0;
    assert(comments@.skip(0) =~= comments@);
    while i < comments.len()
        invariant
            i <= comments@.len(),
            comment_range_of(comments@, offset) == comment_range_of(comments@.skip(i as int), offset),
        decreases comments@.len() - i,
    {
        assert(comments@.skip(i as int)[0] == comments@[i as int]);
        assert(comments@.skip(i as int).drop_first() =~= comments@.skip(i + 1));
        if holds_offset(&comments[i].diagnostic_offsets, offset) {
            return Some(comments[i].range);
        }
        i = i + 1;
    }
    None
}

fn find_owner_range(nodes: &Vec<SalsaDocOwnerNodeSummary>, owner: &SalsaDocOwnerSummary) -> (r: Option<SalsaTextRangeSummary>)
    ensures
        r == owner_range(nodes@, *owner),
{
    let offset = match owner.syntax_offset {
        Some(o) => o,
        None => return None,
    };
    match owner.kind {
        SalsaDocOwnerKindSummary::NoOwner | SalsaDocOwnerKindSummary::Other => return None,
        _ => {},
    }
    let mut i: usize = 0;
    assert(nodes@.skip(0) =~= nodes@);
    while i < nodes.len()
        invariant
            i <= nodes@.len(),
            owner.syntax_offset == Some(offset),
            owner_range(nodes@, *owner) == first_owner_node(nodes@.skip(i as int), *owner, offset),
        decreases nodes@.len() - i,
    {
        assert(nodes@.skip(i as int)[0] == nodes@[i as int]);
        assert(nodes@.skip(i as int).drop_first() =~= nodes@.skip(i + 1));
        if nodes[i].kind == owner.kind && nodes[i].syntax_offset == offset {
            return Some(nodes[i].range);
        }
        i = i + 1;
    }
    None
}

fn resolve_one(
    action: &SalsaDocDiagnosticActionSummary,
    owner: &SalsaDocOwnerSummary,
    comments: &Vec<SalsaDocCommentSummary>,
    nodes: &Vec<SalsaDocOwnerNodeSummary>,
    index: &LineIndex,
    text_len: u32,
) -> (r: Option<SalsaResolvedDocDiagnosticActionSummary>)
    requires
        non_decreasing(line_index_starts(*index)),
        line_index_starts(*index).len() >= 1,
        line_index_starts(*index)[0] == 0,
        line_index_starts(*index).len() <= usize::MAX + 1,
    ensures
        r == resolve_action(*action, *owner, comments@, nodes@, line_index_starts(*index), text_len),
{
    let comment = match find_comment_range(comments, action.syntax_offset) {
        Some(c) => c,
        None => return None,
    };
    let whole = SalsaTextRangeSummary { start: 0, end: text_len };
    let range = match action.kind {
        SalsaDocDiagnosticActionKindSummary::Disable => match find_owner_range(nodes, owner) {
            Some(r) => Some(r),
            None => Some(whole),
        },
        SalsaDocDiagnosticActionKindSummary::DisableNextLine => match line_index_line_of(index, comment.end) {
            Some(line) => {
                proof { lemma_count_bounds(line_index_starts(*index), comment.end); }
                let next = if line < usize::MAX {
                    line_range_at(index, text_len, line + 1)
                } else {
                    None
                };
                match next {
                    Some(next) => Some(SalsaTextRangeSummary { start: comment.start, end: next.end }),
                    None => None,
                }
            },
            None => None,
        },
        SalsaDocDiagnosticActionKindSummary::DisableLine => match line_index_line_of(index, comment.end) {
            Some(line) => line_range_at(index, text_len, line),
            None => None,
        },
        SalsaDocDiagnosticActionKindSummary::Enable => if owner.syntax_offset.is_none() {
            Some(whole)
        } else {
            Some(comment)
        },
    };
    match range {
        Some(range) => Some(
            SalsaResolvedDocDiagnosticActionSummary {
                syntax_offset: action.syntax_offset,
                kind: action.kind,
                code_name: clone_opt_string(&action.code_name),
                range,
            },
        ),
        None => None,
    }
}

/// The `---@diagnostic` actions of `property`, each with the text it applies
/// to (see `spec_resolved_diagnostics`): the comments and documented nodes of
/// the file say where each tag and owner stands, and `text` where its lines
/// start. Offsets are `u32`, so the text is at most that long.
pub fn collect_resolved_doc_tag_diagnostics_for_property(
    property: &SalsaDocTagPropertySummary,
    comments: &Vec<SalsaDocCommentSummary>,
    owner_nodes: &Vec<SalsaDocOwnerNodeSummary>,
    text: &str,
) -> (r: Vec<SalsaResolvedDocDiagnosticActionSummary>)
    requires
        text.spec_bytes().len() <= u32::MAX,
    ensures
        r@ == spec_resolved_diagnostics(property@, comments@, owner_nodes@, text.spec_bytes()),
{
    let line_index = line_index_parse(text);
    proof { lemma_line_starts_ordered(text.spec_bytes()); }
    let text_len = text.len() as u32;
    let ghost starts = line_index_starts(line_index);
    let ghost owner = property.owner;
    let ghost entries = property@.entries;
    let mut r: Vec<SalsaResolvedDocDiagnosticActionSummary> = Vec::new();
    let mut i: usize = 0;
    while i < property.entries.len()
        invariant
            i <= property.entries@.len(),
            entries == property@.entries,
            owner == property.owner,
            entries.len() == property.entries@.len(),
            starts == line_index_starts(line_index),
            starts == line_starts(text.spec_bytes()),
            non_decreasing(starts),
            starts.len() >= 1,
            starts[0] == 0,
            starts.len() <= usize::MAX + 1,
            text_len == text.spec_bytes().len() as u32,
            r@ == resolve_actions(diagnostic_actions_of(entries.take(i as int)), owner, comments@, owner_nodes@, starts, text_len),
        decreases property.entries@.len() - i,
    {
        assert(entries.take(i + 1).drop_last() =~= entries.take(i as int));
        assert(entries[i as int] == property.entries@[i as int]@);
        match &property.entries[i] {
            SalsaDocTagPropertyEntrySummary::Diagnostic(d) => {
                let ghost pre = diagnostic_actions_of(entries.take(i as int));
                let mut j: usize = 0;
                assert(pre + d@.take(0) =~= pre);
                while j < d.len()
                    invariant
                        j <= d@.len(),
                        owner == property.owner,
                        non_decreasing(starts),
                        starts.len() >= 1,
                        starts[0] == 0,
                        starts.len() <= usize::MAX + 1,
                        starts == line_index_starts(line_index),
                        r@ == resolve_actions(pre + d@.take(j as int), owner, comments@, owner_nodes@, starts, text_len),
                    decreases d@.len() - j,
                {
                    assert((pre + d@.take(j + 1)).drop_last() =~= pre + d@.take(j as int));
                    assert((pre + d@.take(j + 1)).last() == d@[j as int]);
                    let x = resolve_one(&d[j], &property.owner, comments, owner_nodes, &line_index, text_len);
                    match x {
                        Some(x) => r.push(x),
                        None => {},
                    }
                    j = j + 1;
                }
                assert(d@.take(j as int) =~= d@);
            },
            _ => {},
        }
        i = i + 1;
    }
    assert(entries.take(i as int) =~= entries);
    r
}

} // verus!
