//! Assignments to local declarations, and the latest one that a program point
//! sees.
use vstd::prelude::*;

use crate::decls::{SalsaDeclKindSummary, SalsaDeclTreeSummary, find_visible_decl_before_offset, spec_find_visible_decl_index};
use crate::type_info::SalsaSyntaxIdSummary;
use vstd::string::StringExecFns;

verus! {

/// An assignment to a local declaration (its `local` statement included): where
/// it is written, the value expression it assigns and which of that
/// expression's results, and, where the value is another declaration or a
/// call, that declaration or call.
#[derive(Clone, Copy, Debug, PartialEq, Eq, Structural)]
pub struct SalsaLocalAssignmentSummary {
    pub decl_id: u32,
    pub syntax_offset: u32,
    pub is_local_declaration: bool,
    pub value_expr_syntax_id: Option<SalsaSyntaxIdSummary>,
    pub value_expr_offset: Option<u32>,
    pub value_result_index: usize,
    pub source_decl_id: Option<u32>,
    pub source_call_syntax_id: Option<SalsaSyntaxIdSummary>,
}

/// The local assignments of a file, in the order of their statements.
#[derive(Clone, Debug)]
pub struct SalsaLocalAssignmentQueryIndex {
    pub assignments: Vec<SalsaLocalAssignmentSummary>,
}

/// The latest assignment to `decl_id` written before `point`: the one written
/// furthest on, and of those written at the same offset, the last listed.
pub open spec fn latest_assignment(s: Seq<SalsaLocalAssignmentSummary>, decl_id: u32, point: u32) -> Option<
    SalsaLocalAssignmentSummary,
>
    decreases s.len(),
{
    if s.len() == 0 {
        None
    } else {
        let prev = latest_assignment(s.drop_last(), decl_id, point);
        let a = s.last();
        if a.decl_id == decl_id && a.syntax_offset < point {
            match prev {
                Some(p) => if a.syntax_offset >= p.syntax_offset { Some(a) } else { prev },
                None => Some(a),
            }
        } else {
            prev
        }
    }
}

/// The latest assignment to `decl_id` written before `program_point_offset`
/// (see `latest_assignment`).
pub fn find_latest_local_assignment(
    index: &SalsaLocalAssignmentQueryIndex,
    decl_id: u32,
    program_point_offset: u32,
) -> (r: Option<SalsaLocalAssignmentSummary>)
    ensures
        r == latest_assignment(index.assignments@, decl_id, program_point_offset),
{
    let ghost s = index.assignments@;
    let mut best: Option<SalsaLocalAssignmentSummary> = None;
    let mut i: usize = 0;
    assert(s.take(0) =~= Seq::<SalsaLocalAssignmentSummary>::empty());
    while i < index.assignments.len()
        invariant
            i <= s.len(),
            s == index.assignments@,
            best == latest_assignment(s.take(i as int), decl_id, program_point_offset),
        decreases s.len() - i,
    {
        assert(s.take(i + 1).drop_last() =~= s.take(i as int));
        let a = index.assignments[i];
        if a.decl_id == decl_id && a.syntax_offset < program_point_offset {
            best = match best {
                Some(p) => if a.syntax_offset >= p.syntax_offset {
                    Some(a)
                } else {
                    Some(p)
                },
                None => Some(a),
            };
        }
        i = i + 1;
    }
    assert(s.take(i as int) =~= s);
    best
}

/// The assignments of `s` without repeats: each kept where it first occurs.
pub open spec fn first_occurrences(s: Seq<SalsaLocalAssignmentSummary>) -> Seq<SalsaLocalAssignmentSummary>
    decreases s.len(),
{
    if s.len() == 0 {
        seq![]
    } else {
        let rest = first_occurrences(s.drop_last());
        if s.drop_last().contains(s.last()) { rest } else { rest.push(s.last()) }
    }
}

/// The assignments without repeats, each kept where it first occurs.
pub fn dedupe_local_assignments(assignments: Vec<SalsaLocalAssignmentSummary>) -> (r: Vec<SalsaLocalAssignmentSummary>)
    ensures
        r@ == first_occurrences(assignments@),
{
    let ghost s = assignments@;
    let mut r: Vec<SalsaLocalAssignmentSummary> = Vec::new();
    let mut i: usize = 0;
    assert(s.take(0) =~= Seq::<SalsaLocalAssignmentSummary>::empty());
    while i < assignments.len()
        invariant
            i <= s.len(),
            s == assignments@,
            r@ == first_occurrences(s.take(i as int)),
        decreases s.len() - i,
    {
        let a = assignments[i];
        let mut seen = false;
        let mut j: usize = 0;
        while j < i
            invariant
                j <= i < s.len(),
                s == assignments@,
                a == s[i as int],
                seen == s.take(j as int).contains(a),
            decreases i - j,
        {
            assert(s.take(j + 1) =~= s.take(j as int).push(s[j as int]));
            if assignments[j] == a {
                assert(s.take(j + 1)[j as int] == a);
                seen = true;
            } else {
                proof {
                    if seen {
                        let k = choose|k: int| 0 <= k < j && s.take(j as int)[k] == a;
                        assert(s.take(j + 1)[k] == a);
                    }
                    let t1 = s.take(j + 1);
                    if t1.contains(a) {
                        let k = choose|k: int| 0 <= k < t1.len() && t1[k] == a;
                        assert(s.take(j as int)[k] == a);
                    }
                }
            }
            j = j + 1;
        }
        assert(s.take(i + 1).drop_last() =~= s.take(i as int));
        assert(s.take(i + 1).last() == a);
        if !seen {
            r.push(a);
        }
        i = i + 1;
    }
    assert(s.take(i as int) =~= s);
    r
}

/// A name as written: its text and where it stands.
#[derive(Clone, Debug, PartialEq, Eq)]
pub struct SalsaNameRefSummary {
    pub name: String,
    pub syntax_offset: u32,
}

/// A value expression of an assignment: its syntax node and where it starts,
/// the call it is and the name it reads (each through parentheses), if any.
#[derive(Clone, Debug, PartialEq, Eq)]
pub struct SalsaAssignValueSummary {
    pub syntax_id: SalsaSyntaxIdSummary,
    pub syntax_offset: u32,
    pub call_syntax_id: Option<SalsaSyntaxIdSummary>,
    pub source_name: Option<SalsaNameRefSummary>,
}

/// A `local` statement or an assignment: where it starts, the names it
/// assigns, in order (none for a target that is not a plain name), and its
/// value expressions, in order.
#[derive(Clone, Debug)]
pub struct SalsaAssignStatSummary {
    pub syntax_offset: u32,
    pub is_local: bool,
    pub targets: Vec<Option<SalsaNameRefSummary>>,
    pub values: Vec<SalsaAssignValueSummary>,
}

/// The local declaration that name `n` means where it is written: the visible
/// declaration of that name there, unless it is a global.
pub open spec fn local_decl_named(tree: SalsaDeclTreeSummary, n: SalsaNameRefSummary) -> Option<u32> {
    let i = spec_find_visible_decl_index(tree, n.name@, n.syntax_offset);
    if i >= 0 && !(tree.decls@[i].kind is Global) {
        Some(tree.decls@[i].id)
    } else {
        None
    }
}

/// The value that target `i` takes and which of its results: the value at the
/// same position, else the last value, past whose first result the target
/// lies; no value where there is none.
pub open spec fn value_for_target(values: Seq<SalsaAssignValueSummary>, i: int) -> (Option<SalsaAssignValueSummary>, int) {
    if i < values.len() {
        (Some(values[i]), 0)
    } else if values.len() == 0 {
        (None, i)
    } else {
        (Some(values.last()), i - (values.len() - 1))
    }
}

/// The assignment that target `i` of `stat` makes, where the target is a name
/// that means a local declaration.
pub open spec fn target_assignment(tree: SalsaDeclTreeSummary, stat: SalsaAssignStatSummary, i: int) -> Option<
    SalsaLocalAssignmentSummary,
> {
    match stat.targets@[i] {
        None => None,
        Some(n) => match local_decl_named(tree, n) {
            None => None,
            Some(d) => {
                let (v, ri) = value_for_target(stat.values@, i);
                Some(
                    SalsaLocalAssignmentSummary {
                        decl_id: d,
                        syntax_offset: stat.syntax_offset,
                        is_local_declaration: stat.is_local,
                        value_expr_syntax_id: match v {
                            Some(v) => Some(v.syntax_id),
                            None => None,
                        },
                        value_expr_offset: match v {
                            Some(v) => Some(v.syntax_offset),
                            None => None,
                        },
                        value_result_index: ri as usize,
                        source_decl_id: match v {
                            Some(v) => match v.source_name {
                                Some(sn) => local_decl_named(tree, sn),
                                None => None,
                            },
                            None => None,
                        },
                        source_call_syntax_id: match v {
                            Some(v) => v.call_syntax_id,
                            None => None,
                        },
                    },
                )
            },
        },
    }
}

/// The assignments that the first `n` targets of `stat` make, in order.
pub open spec fn stat_assignments(tree: SalsaDeclTreeSummary, stat: SalsaAssignStatSummary, n: int) -> Seq<
    SalsaLocalAssignmentSummary,
>
    decreases n,
{
    if n <= 0 {
        seq![]
    } else {
        let r = stat_assignments(tree, stat, n - 1);
        match target_assignment(tree, stat, n - 1) {
            Some(a) => r.push(a),
            None => r,
        }
    }
}

/// The assignments to local declarations that the statements make, statement
/// by statement and target by target.
pub open spec fn spec_local_assignments(tree: SalsaDeclTreeSummary, stats: Seq<SalsaAssignStatSummary>) -> Seq<
    SalsaLocalAssignmentSummary,
>
    decreases stats.len(),
{
    if stats.len() == 0 {
        seq![]
    } else {
        spec_local_assignments(tree, stats.drop_last()) + stat_assignments(
            tree,
            stats.last(),
            stats.last().targets@.len() as int,
        )
    }
}

fn local_decl_of(tree: &SalsaDeclTreeSummary, n: &SalsaNameRefSummary) -> (r: Option<u32>)
    ensures
        r == local_decl_named(*tree, *n),
{
    match find_visible_decl_before_offset(tree, n.name.as_str(), n.syntax_offset) {
        Some(d) => match d.kind {
            SalsaDeclKindSummary::Global => None,
            _ => Some(d.id),
        },
        None => None,
    }
}

fn assignment_for_target(tree: &SalsaDeclTreeSummary, stat: &SalsaAssignStatSummary, i: usize) -> (r: Option<
    SalsaLocalAssignmentSummary,
>)
    requires
        i < stat.targets@.len(),
    ensures
        r == target_assignment(*tree, *stat, i as int),
{
    let n = match &stat.targets[i] {
        Some(n) => n,
        None => return None,
    };
    let d = match local_decl_of(tree, n) {
        Some(d) => d,
        None => return None,
    };
    let len = stat.values.len();
    let (v, ri): (Option<&SalsaAssignValueSummary>, usize) = if i < len {
        (Some(&stat.values[i]), 0)
    } else if len == 0 {
        (None, i)
    } else {
        (Some(&stat.values[len - 1]), i - (len - 1))
    };
    let source_decl_id = match v {
        Some(v) => match &v.source_name {
            Some(sn) => local_decl_of(tree, sn),
            None => None,
        },
        None => None,
    };
    Some(
        SalsaLocalAssignmentSummary {
            decl_id: d,
            syntax_offset: stat.syntax_offset,
            is_local_declaration: stat.is_local,
            value_expr_syntax_id: match v {
                Some(v) => Some(v.syntax_id),
                None => None,
            },
            value_expr_offset: match v {
                Some(v) => Some(v.syntax_offset),
                None => None,
            },
            value_result_index: ri,
            source_decl_id,
            source_call_syntax_id: match v {
                Some(v) => v.call_syntax_id,
                None => None,
            },
        },
    )
}

/// The local assignments of a file (see `spec_local_assignments`), from its
/// `local` statements and assignments in the order they are written.
pub fn build_local_assignment_query_index(decl_tree: &SalsaDeclTreeSummary, stats: &Vec<SalsaAssignStatSummary>) -> (r:
    SalsaLocalAssignmentQueryIndex)
    ensures
        r.assignments@ == spec_local_assignments(*decl_tree, stats@),
{
    let ghost ss = stats@;
    let mut assignments: Vec<SalsaLocalAssignmentSummary> = Vec::new();
    let mut k: usize = 0;
    assert(ss.take(0) =~= Seq::<SalsaAssignStatSummary>::empty());
    while k < stats.len()
        invariant
            k <= ss.len(),
            ss == stats@,
            assignments@ == spec_local_assignments(*decl_tree, ss.take(k as int)),
        decreases ss.len() - k,
    {
        let stat = &stats[k];
        let ghost before = assignments@;
        let mut i: usize = 0;
        while i < stat.targets.len()
            invariant
                i <= stat.targets@.len(),
                assignments@ == before + stat_assignments(*decl_tree, *stat, i as int),
            decreases stat.targets@.len() - i,
        {
            match assignment_for_target(decl_tree, stat, i) {
                Some(a) => {
                    assignments.push(a);
                },
                None => {},
            }
            assert(before + stat_assignments(*decl_tree, *stat, i + 1) =~= match target_assignment(
                *decl_tree,
                *stat,
                i as int,
            ) {
                Some(a) => (before + stat_assignments(*decl_tree, *stat, i as int)).push(a),
                None => before + stat_assignments(*decl_tree, *stat, i as int),
            });
            i = i + 1;
        }
        assert(ss.take(k + 1).drop_last() =~= ss.take(k as int));
        assert(ss.take(k + 1).last() == ss[k as int]);
        k = k + 1;
    }
    assert(ss.take(k as int) =~= ss);
    SalsaLocalAssignmentQueryIndex { assignments }
}

} // verus!
