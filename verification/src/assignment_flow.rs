//! Which assignments reach a program point: walking the blocks of a file up to
//! the point, each assignment to the declaration replaces what reached it, an
//! `if` passed over merges what each of its clauses leaves, and a `do` block is
//! walked through.
use vstd::prelude::*;

use crate::assignments::{SalsaLocalAssignmentQueryIndex, SalsaLocalAssignmentSummary, find_latest_local_assignment, latest_assignment};

verus! {

/// A block of statements and the text it covers, from `start_offset` up to
/// `end_offset`.
#[derive(Debug)]
pub struct SalsaBlockSummary {
    pub start_offset: u32,
    pub end_offset: u32,
    pub stats: Vec<SalsaBlockStatSummary>,
}

/// A statement of a block: where it starts and ends, what it is, and the other
/// blocks written inside it (loop and function bodies).
#[derive(Debug)]
pub struct SalsaBlockStatSummary {
    pub syntax_offset: u32,
    pub end_offset: u32,
    pub kind: SalsaBlockStatKindSummary,
    pub nested_blocks: Vec<SalsaBlockSummary>,
}

/// What a statement is: an assignment or `local` statement; an `if`, with the
/// blocks of its `then` and `elseif` clauses and its `else` clause; a `do`
/// block; or another statement.
#[derive(Debug)]
pub enum SalsaBlockStatKindSummary {
    Assign,
    If { clause_blocks: Vec<Option<SalsaBlockSummary>>, else_clause: Option<Option<SalsaBlockSummary>> },
    Do { block: Option<SalsaBlockSummary> },
    Other,
}

/// Offset `p` lies in the text from `start` up to `end`.
pub open spec fn covers(start: u32, end: u32, p: u32) -> bool {
    start <= p && p < end
}

/// The assignments to `decl` written by the statement at `off`, in order.
pub open spec fn assignments_at(asg: Seq<SalsaLocalAssignmentSummary>, decl: u32, off: u32) -> Seq<SalsaLocalAssignmentSummary>
    decreases asg.len(),
{
    if asg.len() == 0 {
        seq![]
    } else {
        let r = assignments_at(asg.drop_last(), decl, off);
        if asg.last().decl_id == decl && asg.last().syntax_offset == off { r.push(asg.last()) } else { r }
    }
}

/// What tells two assignments apart once merged: all but the declaration.
pub open spec fn merge_key(a: SalsaLocalAssignmentSummary) -> (u32, bool, Option<crate::type_info::SalsaSyntaxIdSummary>, Option<u32>, usize, Option<u32>, Option<crate::type_info::SalsaSyntaxIdSummary>) {
    (a.syntax_offset, a.is_local_declaration, a.value_expr_syntax_id, a.value_expr_offset, a.value_result_index, a.source_decl_id, a.source_call_syntax_id)
}

/// `s` with each assignment kept where its key first occurs.
pub open spec fn dedupe_merged(s: Seq<SalsaLocalAssignmentSummary>) -> Seq<SalsaLocalAssignmentSummary>
    decreases s.len(),
{
    if s.len() == 0 {
        seq![]
    } else {
        let r = dedupe_merged(s.drop_last());
        if exists|j: int| 0 <= j < s.len() - 1 && #[trigger] merge_key(s[j]) == merge_key(s.last()) { r } else { r.push(s.last()) }
    }
}

/// The position of the clause of an `if` whose block covers `p`: the first such
/// `then` or `elseif` clause, else the number of clauses for an `else` block
/// that covers it, else -1.
pub open spec fn active_clause_index(
    clauses: Seq<Option<SalsaBlockSummary>>,
    else_clause: Option<Option<SalsaBlockSummary>>,
    p: u32,
    k: int,
) -> int
    decreases clauses.len() - k,
{
    if k < 0 || k >= clauses.len() {
        match else_clause {
            Some(Some(b)) => if covers(b.start_offset, b.end_offset, p) { clauses.len() as int } else { -1 },
            _ => -1,
        }
    } else {
        match clauses[k] {
            Some(b) => if covers(b.start_offset, b.end_offset, p) { k } else { active_clause_index(clauses, else_clause, p, k + 1) },
            None => active_clause_index(clauses, else_clause, p, k + 1),
        }
    }
}

/// The assignments to `decl` that reach `p` in block `b`, from `incoming` at its
/// start.
pub open spec fn reach_in_block(
    b: SalsaBlockSummary,
    p: u32,
    asg: Seq<SalsaLocalAssignmentSummary>,
    decl: u32,
    incoming: Seq<SalsaLocalAssignmentSummary>,
) -> Seq<SalsaLocalAssignmentSummary>
    decreases b, 0int,
{
    reach_from(b.stats@, 0, p, asg, decl, incoming)
}

/// Walking statements from position `j` on, with `current` reaching them.
pub open spec fn reach_from(
    stats: Seq<SalsaBlockStatSummary>,
    j: int,
    p: u32,
    asg: Seq<SalsaLocalAssignmentSummary>,
    decl: u32,
    current: Seq<SalsaLocalAssignmentSummary>,
) -> Seq<SalsaLocalAssignmentSummary>
    decreases stats, stats.len() - j,
{
    if j < 0 || j >= stats.len() {
        current
    } else if stats[j].syntax_offset >= p {
        current
    } else {
        let st = stats[j];
        match st.kind {
            SalsaBlockStatKindSummary::Assign => {
                let rep = assignments_at(asg, decl, st.syntax_offset);
                reach_from(stats, j + 1, p, asg, decl, if rep.len() > 0 { rep } else { current })
            },
            SalsaBlockStatKindSummary::If { clause_blocks, else_clause } => {
                if covers(st.syntax_offset, st.end_offset, p) {
                    let k = active_clause_index(clause_blocks@, else_clause, p, 0);
                    if 0 <= k < clause_blocks@.len() && clause_blocks@[k] is Some {
                        reach_in_block(clause_blocks@[k]->0, p, asg, decl, current)
                    } else if k == clause_blocks@.len() && else_clause is Some && else_clause->0 is Some {
                        reach_in_block(else_clause->0->0, p, asg, decl, current)
                    } else {
                        reach_from(stats, j + 1, p, asg, decl, current)
                    }
                } else if st.end_offset < p {
                    let else_part = match else_clause {
                        None => current,
                        Some(None) => seq![],
                        Some(Some(eb)) => final_in_block(eb, asg, decl, current),
                    };
                    let merged = dedupe_merged(
                        merge_clauses(clause_blocks@, clause_blocks@.len() as int, asg, decl, current) + else_part,
                    );
                    reach_from(stats, j + 1, p, asg, decl, merged)
                } else {
                    reach_from(stats, j + 1, p, asg, decl, current)
                }
            },
            SalsaBlockStatKindSummary::Do { block } => match block {
                Some(db) => if covers(db.start_offset, db.end_offset, p) {
                    reach_in_block(db, p, asg, decl, current)
                } else {
                    let nested = reach_in_block(db, db.end_offset, asg, decl, current);
                    reach_from(stats, j + 1, p, asg, decl, if nested.len() > 0 { nested } else { current })
                },
                None => reach_from(stats, j + 1, p, asg, decl, current),
            },
            SalsaBlockStatKindSummary::Other => reach_from(stats, j + 1, p, asg, decl, current),
        }
    }
}

/// What the first `n` clauses of an `if` leave, one after the other.
pub open spec fn merge_clauses(
    clauses: Seq<Option<SalsaBlockSummary>>,
    n: int,
    asg: Seq<SalsaLocalAssignmentSummary>,
    decl: u32,
    incoming: Seq<SalsaLocalAssignmentSummary>,
) -> Seq<SalsaLocalAssignmentSummary>
    decreases clauses, n,
{
    if n <= 0 || n > clauses.len() {
        seq![]
    } else {
        merge_clauses(clauses, n - 1, asg, decl, incoming) + match clauses[n - 1] {
            Some(cb) => final_in_block(cb, asg, decl, incoming),
            None => seq![],
        }
    }
}

/// What a block leaves at its end: what reaches its end, or `incoming` where
/// nothing does.
pub open spec fn final_in_block(
    b: SalsaBlockSummary,
    asg: Seq<SalsaLocalAssignmentSummary>,
    decl: u32,
    incoming: Seq<SalsaLocalAssignmentSummary>,
) -> Seq<SalsaLocalAssignmentSummary>
    decreases b, 1int,
{
    let r = reach_in_block(b, b.end_offset, asg, decl, incoming);
    if r.len() == 0 { incoming } else { r }
}

fn clone_assignments(v: &Vec<SalsaLocalAssignmentSummary>) -> (r: Vec<SalsaLocalAssignmentSummary>)
    ensures
        r@ == v@,
{
    let mut r: Vec<SalsaLocalAssignmentSummary> = Vec::new();
    let mut i: usize = 0;
    while i < v.len()
        invariant
            i <= v@.len(),
            r@ == v@.take(i as int),
        decreases v@.len() - i,
    {
        r.push(v[i]);
        assert(v@.take(i + 1) =~= v@.take(i as int).push(v@[i as int]));
        i = i + 1;
    }
    assert(v@.take(i as int) =~= v@);
    r
}

/// The assignments to `decl` written by the statement at `off`.
pub fn collect_assignments_at(asg: &Vec<SalsaLocalAssignmentSummary>, decl: u32, off: u32) -> (r: Vec<SalsaLocalAssignmentSummary>)
    ensures
        r@ == assignments_at(asg@, decl, off),
{
    let mut r: Vec<SalsaLocalAssignmentSummary> = Vec::new();
    let mut i: usize = 0;
    assert(asg@.take(0) =~= Seq::<SalsaLocalAssignmentSummary>::empty());
    while i < asg.len()
        invariant
            i <= asg@.len(),
            r@ == assignments_at(asg@.take(i as int), decl, off),
        decreases asg@.len() - i,
    {
        assert(asg@.take(i + 1).drop_last() =~= asg@.take(i as int));
        let a = asg[i];
        if a.decl_id == decl && a.syntax_offset == off {
            r.push(a);
        }
        i = i + 1;
    }
    assert(asg@.take(i as int) =~= asg@);
    r
}

fn opt_id_eq(a: Option<crate::type_info::SalsaSyntaxIdSummary>, b: Option<crate::type_info::SalsaSyntaxIdSummary>) -> (r: bool)
    ensures
        r == (a == b),
{
    match (a, b) {
        (Some(x), Some(y)) => x == y,
        (None, None) => true,
        _ => false,
    }
}

fn opt_u32_eq(a: Option<u32>, b: Option<u32>) -> (r: bool)
    ensures
        r == (a == b),
{
    match (a, b) {
        (Some(x), Some(y)) => x == y,
        (None, None) => true,
        _ => false,
    }
}

fn same_merge_key(a: &SalsaLocalAssignmentSummary, b: &SalsaLocalAssignmentSummary) -> (r: bool)
    ensures
        r == (merge_key(*a) == merge_key(*b)),
{
    a.syntax_offset == b.syntax_offset && a.is_local_declaration == b.is_local_declaration && opt_id_eq(
        a.value_expr_syntax_id,
        b.value_expr_syntax_id,
    ) && opt_u32_eq(a.value_expr_offset, b.value_expr_offset) && a.value_result_index == b.value_result_index
        && opt_u32_eq(a.source_decl_id, b.source_decl_id) && opt_id_eq(a.source_call_syntax_id, b.source_call_syntax_id)
}

/// The merged assignments, each kept where its key first occurs.
pub fn dedupe_merged_assignments(s: &Vec<SalsaLocalAssignmentSummary>) -> (r: Vec<SalsaLocalAssignmentSummary>)
    ensures
        r@ == dedupe_merged(s@),
{
    let ghost ss = s@;
    let mut r: Vec<SalsaLocalAssignmentSummary> = Vec::new();
    let mut i: usize = 0;
    assert(ss.take(0) =~= Seq::<SalsaLocalAssignmentSummary>::empty());
    while i < s.len()
        invariant
            i <= ss.len(),
            ss == s@,
            r@ == dedupe_merged(ss.take(i as int)),
        decreases ss.len() - i,
    {
        let ghost t = ss.take(i + 1);
        assert(t.drop_last() =~= ss.take(i as int));
        assert(t.last() == ss[i as int]);
        let mut seen = false;
        let mut j: usize = 0;
        while j < i
            invariant
                j <= i < ss.len(),
                ss == s@,
                t == ss.take(i + 1),
                seen == exists|k: int| 0 <= k < j && #[trigger] merge_key(t[k]) == merge_key(t.last()),
            decreases i - j,
        {
            if same_merge_key(&s[j], &s[i]) {
                assert(merge_key(t[j as int]) == merge_key(t.last()));
                seen = true;
            }
            j = j + 1;
        }
        if !seen {
            r.push(s[i]);
        }
        i = i + 1;
    }
    assert(ss.take(i as int) =~= ss);
    r
}

fn active_clause_at(
    clauses: &Vec<Option<SalsaBlockSummary>>,
    else_clause: &Option<Option<SalsaBlockSummary>>,
    p: u32,
) -> (r: Option<usize>)
    ensures
        match r {
            Some(k) => k as int == active_clause_index(clauses@, *else_clause, p, 0) && k <= clauses@.len(),
            None => active_clause_index(clauses@, *else_clause, p, 0) == -1,
        },
{
    let mut k: usize = 0;
    while k < clauses.len()
        invariant
            k <= clauses@.len(),
            active_clause_index(clauses@, *else_clause, p, 0) == active_clause_index(clauses@, *else_clause, p, k as int),
        decreases clauses@.len() - k,
    {
        match &clauses[k] {
            Some(b) => {
                if b.start_offset <= p && p < b.end_offset {
                    return Some(k);
                }
            },
            None => {},
        }
        k = k + 1;
    }
    match else_clause {
        Some(Some(b)) => if b.start_offset <= p && p < b.end_offset {
            Some(clauses.len())
        } else {
            None
        },
        _ => None,
    }
}

/// The assignments to `decl` that reach `p` in block `b` (see `reach_in_block`).
pub fn collect_assignments_in_block_until_point(
    b: &SalsaBlockSummary,
    p: u32,
    asg: &Vec<SalsaLocalAssignmentSummary>,
    decl: u32,
    incoming: Vec<SalsaLocalAssignmentSummary>,
) -> (r: Vec<SalsaLocalAssignmentSummary>)
    ensures
        r@ == reach_in_block(*b, p, asg@, decl, incoming@),
    decreases *b, 0int,
{
    reach_from_exec(&b.stats, 0, p, asg, decl, incoming)
}

fn reach_from_exec(
    stats: &Vec<SalsaBlockStatSummary>,
    j: usize,
    p: u32,
    asg: &Vec<SalsaLocalAssignmentSummary>,
    decl: u32,
    current: Vec<SalsaLocalAssignmentSummary>,
) -> (r: Vec<SalsaLocalAssignmentSummary>)
    ensures
        r@ == reach_from(stats@, j as int, p, asg@, decl, current@),
    decreases stats@, stats@.len() - j,
{
    if j >= stats.len() {
        return current;
    }
    let st = &stats[j];
    if st.syntax_offset >= p {
        return current;
    }
    match &st.kind {
        SalsaBlockStatKindSummary::Assign => {
            let rep = collect_assignments_at(asg, decl, st.syntax_offset);
            let next = if rep.len() > 0 { rep } else { current };
            reach_from_exec(stats, j + 1, p, asg, decl, next)
        },
        SalsaBlockStatKindSummary::If { clause_blocks, else_clause } => {
            if st.syntax_offset <= p && p < st.end_offset {
                match active_clause_at(clause_blocks, else_clause, p) {
                    Some(k) => {
                        if k < clause_blocks.len() {
                            match &clause_blocks[k] {
                                Some(cb) => collect_assignments_in_block_until_point(cb, p, asg, decl, current),
                                None => reach_from_exec(stats, j + 1, p, asg, decl, current),
                            }
                        } else {
                            match else_clause {
                                Some(Some(eb)) => collect_assignments_in_block_until_point(eb, p, asg, decl, current),
                                _ => reach_from_exec(stats, j + 1, p, asg, decl, current),
                            }
                        }
                    },
                    None => reach_from_exec(stats, j + 1, p, asg, decl, current),
                }
            } else if st.end_offset < p {
                let mut merged = merge_clauses_exec(clause_blocks, clause_blocks.len(), asg, decl, &current);
                let else_part: Vec<SalsaLocalAssignmentSummary> = match else_clause {
                    None => clone_assignments(&current),
                    Some(None) => Vec::new(),
                    Some(Some(eb)) => final_in_block_exec(eb, asg, decl, &current),
                };
                let mut e = else_part;
                merged.append(&mut e);
                let deduped = dedupe_merged_assignments(&merged);
                reach_from_exec(stats, j + 1, p, asg, decl, deduped)
            } else {
                reach_from_exec(stats, j + 1, p, asg, decl, current)
            }
        },
        SalsaBlockStatKindSummary::Do { block } => match block {
            Some(db) => if db.start_offset <= p && p < db.end_offset {
                collect_assignments_in_block_until_point(db, p, asg, decl, current)
            } else {
                let nested = collect_assignments_in_block_until_point(db, db.end_offset, asg, decl, clone_assignments(&current));
                let next = if nested.len() > 0 { nested } else { current };
                reach_from_exec(stats, j + 1, p, asg, decl, next)
            },
            None => reach_from_exec(stats, j + 1, p, asg, decl, current),
        },
        SalsaBlockStatKindSummary::Other => reach_from_exec(stats, j + 1, p, asg, decl, current),
    }
}

fn merge_clauses_exec(
    clauses: &Vec<Option<SalsaBlockSummary>>,
    n: usize,
    asg: &Vec<SalsaLocalAssignmentSummary>,
    decl: u32,
    incoming: &Vec<SalsaLocalAssignmentSummary>,
) -> (r: Vec<SalsaLocalAssignmentSummary>)
    requires
        n <= clauses@.len(),
    ensures
        r@ == merge_clauses(clauses@, n as int, asg@, decl, incoming@),
    decreases clauses@, n,
{
    if n == 0 {
        return Vec::new();
    }
    let mut r = merge_clauses_exec(clauses, n - 1, asg, decl, incoming);
    match &clauses[n - 1] {
        Some(cb) => {
            let mut f = final_in_block_exec(cb, asg, decl, incoming);
            r.append(&mut f);
        },
        None => {},
    }
    r
}

fn final_in_block_exec(
    b: &SalsaBlockSummary,
    asg: &Vec<SalsaLocalAssignmentSummary>,
    decl: u32,
    incoming: &Vec<SalsaLocalAssignmentSummary>,
) -> (r: Vec<SalsaLocalAssignmentSummary>)
    ensures
        r@ == final_in_block(*b, asg@, decl, incoming@),
    decreases *b, 1int,
{
    let r = collect_assignments_in_block_until_point(b, b.end_offset, asg, decl, clone_assignments(incoming));
    if r.len() == 0 {
        clone_assignments(incoming)
    } else {
        r
    }
}

/// The innermost block within `b` that covers `p`: descending from `b`, while
/// it covers `p`, into the first block written in it that covers `p` (the
/// blocks of each statement's clauses, its `else`, its `do` block, then the
/// others, statement by statement). Blocks of a file are nested or apart, so
/// this is the shortest block that covers `p`.
pub open spec fn innermost_block(b: SalsaBlockSummary, p: u32) -> Option<SalsaBlockSummary>
    decreases b, 0int,
{
    if !covers(b.start_offset, b.end_offset, p) {
        None
    } else {
        match innermost_in_stats(b.stats@, 0, p) {
            Some(c) => Some(c),
            None => Some(b),
        }
    }
}

pub open spec fn innermost_in_stats(stats: Seq<SalsaBlockStatSummary>, j: int, p: u32) -> Option<SalsaBlockSummary>
    decreases stats, stats.len() - j,
{
    if j < 0 || j >= stats.len() {
        None
    } else {
        let st = stats[j];
        let structured = match st.kind {
            SalsaBlockStatKindSummary::If { clause_blocks, else_clause } => match innermost_in_opt_blocks(clause_blocks@, 0, p) {
                Some(c) => Some(c),
                None => match else_clause {
                    Some(Some(eb)) => innermost_block(eb, p),
                    _ => None,
                },
            },
            SalsaBlockStatKindSummary::Do { block } => match block {
                Some(db) => innermost_block(db, p),
                None => None,
            },
            _ => None,
        };
        match structured {
            Some(c) => Some(c),
            None => match innermost_in_blocks(st.nested_blocks@, 0, p) {
                Some(c) => Some(c),
                None => innermost_in_stats(stats, j + 1, p),
            },
        }
    }
}

pub open spec fn innermost_in_opt_blocks(bs: Seq<Option<SalsaBlockSummary>>, k: int, p: u32) -> Option<SalsaBlockSummary>
    decreases bs, bs.len() - k,
{
    if k < 0 || k >= bs.len() {
        None
    } else {
        match bs[k] {
            Some(b) => match innermost_block(b, p) {
                Some(c) => Some(c),
                None => innermost_in_opt_blocks(bs, k + 1, p),
            },
            None => innermost_in_opt_blocks(bs, k + 1, p),
        }
    }
}

pub open spec fn innermost_in_blocks(bs: Seq<SalsaBlockSummary>, k: int, p: u32) -> Option<SalsaBlockSummary>
    decreases bs, bs.len() - k,
{
    if k < 0 || k >= bs.len() {
        None
    } else {
        match innermost_block(bs[k], p) {
            Some(c) => Some(c),
            None => innermost_in_blocks(bs, k + 1, p),
        }
    }
}

/// The innermost block within `b` that covers `p` (see `innermost_block`).
pub fn innermost_block_at_offset<'a>(b: &'a SalsaBlockSummary, p: u32) -> (r: Option<&'a SalsaBlockSummary>)
    ensures
        match r {
            Some(x) => innermost_block(*b, p) == Some(*x),
            None => innermost_block(*b, p).is_none(),
        },
    decreases *b, 0int,
{
    if !(b.start_offset <= p && p < b.end_offset) {
        return None;
    }
    match innermost_in_stats_exec(&b.stats, 0, p) {
        Some(c) => Some(c),
        None => Some(b),
    }
}

fn innermost_in_stats_exec<'a>(stats: &'a Vec<SalsaBlockStatSummary>, j: usize, p: u32) -> (r: Option<&'a SalsaBlockSummary>)
    ensures
        match r {
            Some(x) => innermost_in_stats(stats@, j as int, p) == Some(*x),
            None => innermost_in_stats(stats@, j as int, p).is_none(),
        },
    decreases stats@, stats@.len() - j,
{
    if j >= stats.len() {
        return None;
    }
    let st = &stats[j];
    let structured: Option<&'a SalsaBlockSummary> = match &st.kind {
        SalsaBlockStatKindSummary::If { clause_blocks, else_clause } => match innermost_in_opt_blocks_exec(clause_blocks, 0, p) {
            Some(c) => Some(c),
            None => match else_clause {
                Some(Some(eb)) => innermost_block_at_offset(eb, p),
                _ => None,
            },
        },
        SalsaBlockStatKindSummary::Do { block } => match block {
            Some(db) => innermost_block_at_offset(db, p),
            None => None,
        },
        _ => None,
    };
    match structured {
        Some(c) => Some(c),
        None => match innermost_in_blocks_exec(&st.nested_blocks, 0, p) {
            Some(c) => Some(c),
            None => innermost_in_stats_exec(stats, j + 1, p),
        },
    }
}

fn innermost_in_opt_blocks_exec<'a>(bs: &'a Vec<Option<SalsaBlockSummary>>, k: usize, p: u32) -> (r: Option<&'a SalsaBlockSummary>)
    ensures
        match r {
            Some(x) => innermost_in_opt_blocks(bs@, k as int, p) == Some(*x),
            None => innermost_in_opt_blocks(bs@, k as int, p).is_none(),
        },
    decreases bs@, bs@.len() - k,
{
    if k >= bs.len() {
        return None;
    }
    match &bs[k] {
        Some(b) => match innermost_block_at_offset(b, p) {
            Some(c) => Some(c),
            None => innermost_in_opt_blocks_exec(bs, k + 1, p),
        },
        None => innermost_in_opt_blocks_exec(bs, k + 1, p),
    }
}

fn innermost_in_blocks_exec<'a>(bs: &'a Vec<SalsaBlockSummary>, k: usize, p: u32) -> (r: Option<&'a SalsaBlockSummary>)
    ensures
        match r {
            Some(x) => innermost_in_blocks(bs@, k as int, p) == Some(*x),
            None => innermost_in_blocks(bs@, k as int, p).is_none(),
        },
    decreases bs@, bs@.len() - k,
{
    if k >= bs.len() {
        return None;
    }
    match innermost_block_at_offset(&bs[k], p) {
        Some(c) => Some(c),
        None => innermost_in_blocks_exec(bs, k + 1, p),
    }
}

/// The assignments to `decl` that reach `p`: those that reach it within the
/// innermost block of the file around it, from nothing at the block's start;
/// where none does, the latest assignment to `decl` written before `p`. None
/// where no block covers `p`.
pub open spec fn spec_latest_assignments_at(
    root: SalsaBlockSummary,
    asg: Seq<SalsaLocalAssignmentSummary>,
    decl: u32,
    p: u32,
) -> Option<Seq<SalsaLocalAssignmentSummary>> {
    match innermost_block(root, p) {
        None => None,
        Some(pb) => {
            let merged = reach_in_block(pb, p, asg, decl, seq![]);
            if merged.len() == 0 {
                match latest_assignment(asg, decl, p) {
                    Some(a) => Some(seq![a]),
                    None => None,
                }
            } else {
                Some(merged)
            }
        },
    }
}

/// The assignments to `decl_id` that reach `program_point_offset` in the file
/// whose top block is `root` (see `spec_latest_assignments_at`).
pub fn latest_assignments_at_program_point(
    root: &SalsaBlockSummary,
    assignments: &SalsaLocalAssignmentQueryIndex,
    decl_id: u32,
    program_point_offset: u32,
) -> (r: Option<Vec<SalsaLocalAssignmentSummary>>)
    ensures
        match r {
            Some(v) => spec_latest_assignments_at(*root, assignments.assignments@, decl_id, program_point_offset) == Some(v@),
            None => spec_latest_assignments_at(*root, assignments.assignments@, decl_id, program_point_offset).is_none(),
        },
{
    let point_block = match innermost_block_at_offset(root, program_point_offset) {
        Some(b) => b,
        None => return None,
    };
    let start: Vec<SalsaLocalAssignmentSummary> = Vec::new();
    assert(start@ =~= Seq::<SalsaLocalAssignmentSummary>::empty());
    let merged = collect_assignments_in_block_until_point(
        point_block,
        program_point_offset,
        &assignments.assignments,
        decl_id,
        start,
    );
    if merged.len() == 0 {
        match find_latest_local_assignment(assignments, decl_id, program_point_offset) {
            Some(a) => {
                let mut v: Vec<SalsaLocalAssignmentSummary> = Vec::new();
                v.push(a);
                assert(v@ =~= seq![a]);
                Some(v)
            },
            None => None,
        }
    } else {
        Some(merged)
    }
}

} // verus!
