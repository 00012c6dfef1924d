//! The narrows that hold of a declaration at a program point: those of the
//! `if` clauses around the point (a clause's own condition holds, the earlier
//! conditions failed), of guard clauses before it in its block (an `if` with no
//! other clause whose block always leaves, so its condition failed), and of the
//! `assert` calls before it in its block.
use vstd::prelude::*;

use crate::assignments::SalsaNameRefSummary;
use crate::decls::{SalsaDeclTreeSummary, find_visible_decl_before_offset, spec_find_visible_decl_index};
use crate::doc_diagnostics::SalsaTextRangeSummary;
use crate::narrow::SalsaTypeNarrowSummary;

verus! {

/// The operators of a condition that narrow.
#[derive(Clone, Copy, Debug, PartialEq, Eq, Structural)]
pub enum SalsaConditionOpSummary {
    And,
    Or,
    Eq,
    Ne,
}

/// A condition expression as narrowing reads it: a name, a parenthesized
/// condition, a `not`, a binary condition with one of the operators above, a
/// literal (its text, and its value where it is a string), an index of a
/// prefix by a plain member name, a `type(..)` call with its first argument, or
/// anything else.
#[derive(Debug)]
pub enum SalsaConditionSummary {
    Name { name: SalsaNameRefSummary },
    Paren { inner: Option<Box<SalsaConditionSummary>> },
    Not { inner: Option<Box<SalsaConditionSummary>> },
    Binary { op: SalsaConditionOpSummary, left: Box<SalsaConditionSummary>, right: Box<SalsaConditionSummary> },
    Literal { text: String, string_value: Option<String> },
    Index { prefix: Option<Box<SalsaConditionSummary>>, member_name: Option<String> },
    TypeCall { first_arg: Option<Box<SalsaConditionSummary>> },
    Other,
}

/// Name `n` means declaration `decl` where it is written.
pub open spec fn names_decl(tree: SalsaDeclTreeSummary, n: SalsaNameRefSummary, decl: u32) -> bool {
    let i = spec_find_visible_decl_index(tree, n.name@, n.syntax_offset);
    i >= 0 && tree.decls@[i].id == decl
}

/// The narrows of `decl` that condition `c` shows when it holds (`positive`)
/// or fails.
pub open spec fn condition_narrows(tree: SalsaDeclTreeSummary, c: SalsaConditionSummary, decl: u32, positive: bool) -> Seq<
    SalsaTypeNarrowSummary,
>
    decreases c,
{
    match c {
        SalsaConditionSummary::Name { name } => if names_decl(tree, name, decl) {
            seq![if positive { SalsaTypeNarrowSummary::Truthy } else { SalsaTypeNarrowSummary::Falsey }]
        } else {
            seq![]
        },
        SalsaConditionSummary::Paren { inner } => match inner {
            Some(b) => condition_narrows(tree, *b, decl, positive),
            None => seq![],
        },
        SalsaConditionSummary::Not { inner } => match inner {
            Some(b) => condition_narrows(tree, *b, decl, !positive),
            None => seq![],
        },
        SalsaConditionSummary::Binary { op, left, right } => match op {
            SalsaConditionOpSummary::And => if positive {
                condition_narrows(tree, *left, decl, true) + condition_narrows(tree, *right, decl, true)
            } else {
                seq![]
            },
            SalsaConditionOpSummary::Or => if !positive {
                condition_narrows(tree, *left, decl, false) + condition_narrows(tree, *right, decl, false)
            } else {
                seq![]
            },
            SalsaConditionOpSummary::Eq => comparison_narrows(tree, *left, *right, decl, positive),
            SalsaConditionOpSummary::Ne => comparison_narrows(tree, *left, *right, decl, !positive),
        },
        _ => seq![],
    }
}

/// The narrows of a comparison of `l` and `r` that holds (`positive`) or fails:
/// the name compared with a literal, a member of the name compared with a
/// literal, and `type(name)` compared with a string.
pub open spec fn comparison_narrows(
    tree: SalsaDeclTreeSummary,
    l: SalsaConditionSummary,
    r: SalsaConditionSummary,
    decl: u32,
    positive: bool,
) -> Seq<SalsaTypeNarrowSummary> {
    literal_narrow(tree, l, r, decl, positive) + field_literal_narrow(tree, l, r, decl, positive) + type_guard_narrow(
        tree,
        l,
        r,
        decl,
        positive,
    )
}

pub open spec fn literal_narrow(
    tree: SalsaDeclTreeSummary,
    l: SalsaConditionSummary,
    r: SalsaConditionSummary,
    decl: u32,
    positive: bool,
) -> Seq<SalsaTypeNarrowSummary> {
    let pair = match (l, r) {
        (SalsaConditionSummary::Name { name }, SalsaConditionSummary::Literal { text, .. }) => Some((name, text)),
        (SalsaConditionSummary::Literal { text, .. }, SalsaConditionSummary::Name { name }) => Some((name, text)),
        _ => None,
    };
    match pair {
        Some((name, text)) => if names_decl(tree, name, decl) {
            seq![SalsaTypeNarrowSummary::Literal { literal_text: text, positive }]
        } else {
            seq![]
        },
        None => seq![],
    }
}

/// The prefix of an index is the name of `decl`, maybe in parentheses.
pub open spec fn prefix_names_decl(tree: SalsaDeclTreeSummary, prefix: Option<Box<SalsaConditionSummary>>, decl: u32) -> bool {
    match prefix {
        Some(b) => match *b {
            SalsaConditionSummary::Name { name } => names_decl(tree, name, decl),
            SalsaConditionSummary::Paren { inner: Some(i) } => match *i {
                SalsaConditionSummary::Name { name } => names_decl(tree, name, decl),
                _ => false,
            },
            _ => false,
        },
        None => false,
    }
}

pub open spec fn field_literal_narrow(
    tree: SalsaDeclTreeSummary,
    l: SalsaConditionSummary,
    r: SalsaConditionSummary,
    decl: u32,
    positive: bool,
) -> Seq<SalsaTypeNarrowSummary> {
    let pair = match (l, r) {
        (SalsaConditionSummary::Index { prefix, member_name }, SalsaConditionSummary::Literal { text, .. }) => Some(
            (prefix, member_name, text),
        ),
        (SalsaConditionSummary::Literal { text, .. }, SalsaConditionSummary::Index { prefix, member_name }) => Some(
            (prefix, member_name, text),
        ),
        _ => None,
    };
    match pair {
        Some((prefix, member_name, text)) => if prefix_names_decl(tree, prefix, decl) && member_name is Some {
            seq![SalsaTypeNarrowSummary::FieldLiteral { member_name: member_name->0, literal_text: text, positive }]
        } else {
            seq![]
        },
        None => seq![],
    }
}

pub open spec fn type_guard_narrow(
    tree: SalsaDeclTreeSummary,
    l: SalsaConditionSummary,
    r: SalsaConditionSummary,
    decl: u32,
    positive: bool,
) -> Seq<SalsaTypeNarrowSummary> {
    let pair = match (l, r) {
        (SalsaConditionSummary::TypeCall { first_arg }, SalsaConditionSummary::Literal { string_value, .. }) => Some(
            (first_arg, string_value),
        ),
        (SalsaConditionSummary::Literal { string_value, .. }, SalsaConditionSummary::TypeCall { first_arg }) => Some(
            (first_arg, string_value),
        ),
        _ => None,
    };
    match pair {
        Some((Some(arg), Some(v))) => match *arg {
            SalsaConditionSummary::Name { name } => if names_decl(tree, name, decl) {
                seq![
                    if positive {
                        SalsaTypeNarrowSummary::TypeGuard { guard_name: v }
                    } else {
                        SalsaTypeNarrowSummary::ExcludeTypeGuard { guard_name: v }
                    },
                ]
            } else {
                seq![]
            },
            _ => seq![],
        },
        _ => seq![],
    }
}

fn names_decl_exec(tree: &SalsaDeclTreeSummary, n: &SalsaNameRefSummary, decl: u32) -> (r: bool)
    ensures
        r == names_decl(*tree, *n, decl),
{
    match find_visible_decl_before_offset(tree, n.name.as_str(), n.syntax_offset) {
        Some(d) => d.id == decl,
        None => false,
    }
}

/// The narrows of `decl` that condition `c` shows when it holds or fails (see
/// `condition_narrows`).
pub fn collect_condition_narrows_for_expr(
    tree: &SalsaDeclTreeSummary,
    c: &SalsaConditionSummary,
    decl: u32,
    positive: bool,
) -> (r: Vec<SalsaTypeNarrowSummary>)
    ensures
        r@ == condition_narrows(*tree, *c, decl, positive),
    decreases *c,
{
    match c {
        SalsaConditionSummary::Name { name } => {
            let mut r: Vec<SalsaTypeNarrowSummary> = Vec::new();
            if names_decl_exec(tree, name, decl) {
                r.push(if positive { SalsaTypeNarrowSummary::Truthy } else { SalsaTypeNarrowSummary::Falsey });
            }
            r
        },
        SalsaConditionSummary::Paren { inner } => match inner {
            Some(b) => collect_condition_narrows_for_expr(tree, b, decl, positive),
            None => Vec::new(),
        },
        SalsaConditionSummary::Not { inner } => match inner {
            Some(b) => collect_condition_narrows_for_expr(tree, b, decl, !positive),
            None => Vec::new(),
        },
        SalsaConditionSummary::Binary { op, left, right } => match op {
            SalsaConditionOpSummary::And => if positive {
                let mut r = collect_condition_narrows_for_expr(tree, left, decl, true);
                let mut r2 = collect_condition_narrows_for_expr(tree, right, decl, true);
                r.append(&mut r2);
                r
            } else {
                Vec::new()
            },
            SalsaConditionOpSummary::Or => if !positive {
                let mut r = collect_condition_narrows_for_expr(tree, left, decl, false);
                let mut r2 = collect_condition_narrows_for_expr(tree, right, decl, false);
                r.append(&mut r2);
                r
            } else {
                Vec::new()
            },
            SalsaConditionOpSummary::Eq => comparison_narrows_exec(tree, left, right, decl, positive),
            SalsaConditionOpSummary::Ne => comparison_narrows_exec(tree, left, right, decl, !positive),
        },
        _ => Vec::new(),
    }
}

fn comparison_narrows_exec(
    tree: &SalsaDeclTreeSummary,
    l: &SalsaConditionSummary,
    r: &SalsaConditionSummary,
    decl: u32,
    positive: bool,
) -> (res: Vec<SalsaTypeNarrowSummary>)
    ensures
        res@ == comparison_narrows(*tree, *l, *r, decl, positive),
{
    let mut res: Vec<SalsaTypeNarrowSummary> = Vec::new();
    let pair: Option<(&SalsaNameRefSummary, &String)> = match (l, r) {
        (SalsaConditionSummary::Name { name }, SalsaConditionSummary::Literal { text, .. }) => Some((name, text)),
        (SalsaConditionSummary::Literal { text, .. }, SalsaConditionSummary::Name { name }) => Some((name, text)),
        _ => None,
    };
    match pair {
        Some((name, text)) => if names_decl_exec(tree, name, decl) {
            res.push(SalsaTypeNarrowSummary::Literal { literal_text: text.clone(), positive });
        },
        None => {},
    }
    let ghost first = res@;
    assert(first == literal_narrow(*tree, *l, *r, decl, positive));
    let field: Option<(&Option<Box<SalsaConditionSummary>>, &Option<String>, &String)> = match (l, r) {
        (SalsaConditionSummary::Index { prefix, member_name }, SalsaConditionSummary::Literal { text, .. }) => Some(
            (prefix, member_name, text),
        ),
        (SalsaConditionSummary::Literal { text, .. }, SalsaConditionSummary::Index { prefix, member_name }) => Some(
            (prefix, member_name, text),
        ),
        _ => None,
    };
    match field {
        Some((prefix, member_name, text)) => if prefix_names_decl_exec(tree, prefix, decl) {
            match member_name {
                Some(m) => res.push(
                    SalsaTypeNarrowSummary::FieldLiteral { member_name: m.clone(), literal_text: text.clone(), positive },
                ),
                None => {},
            }
        },
        None => {},
    }
    let ghost second = res@;
    assert(second == first + field_literal_narrow(*tree, *l, *r, decl, positive));
    let guard: Option<(&Option<Box<SalsaConditionSummary>>, &Option<String>)> = match (l, r) {
        (SalsaConditionSummary::TypeCall { first_arg }, SalsaConditionSummary::Literal { string_value, .. }) => Some(
            (first_arg, string_value),
        ),
        (SalsaConditionSummary::Literal { string_value, .. }, SalsaConditionSummary::TypeCall { first_arg }) => Some(
            (first_arg, string_value),
        ),
        _ => None,
    };
    match guard {
        Some((Some(arg), Some(v))) => match &**arg {
            SalsaConditionSummary::Name { name } => if names_decl_exec(tree, name, decl) {
                res.push(
                    if positive {
                        SalsaTypeNarrowSummary::TypeGuard { guard_name: v.clone() }
                    } else {
                        SalsaTypeNarrowSummary::ExcludeTypeGuard { guard_name: v.clone() }
                    },
                );
            },
            _ => {},
        },
        _ => {},
    }
    assert(res@ =~= comparison_narrows(*tree, *l, *r, decl, positive));
    res
}

fn prefix_names_decl_exec(tree: &SalsaDeclTreeSummary, prefix: &Option<Box<SalsaConditionSummary>>, decl: u32) -> (r: bool)
    ensures
        r == prefix_names_decl(*tree, *prefix, decl),
{
    match prefix {
        Some(b) => match &**b {
            SalsaConditionSummary::Name { name } => names_decl_exec(tree, name, decl),
            SalsaConditionSummary::Paren { inner: Some(i) } => match &**i {
                SalsaConditionSummary::Name { name } => names_decl_exec(tree, name, decl),
                _ => false,
            },
            _ => false,
        },
        None => false,
    }
}

/// A clause of an `if` (its `then` clause or an `elseif`): its block's text and
/// its condition, where they were read.
#[derive(Debug)]
pub struct SalsaIfClauseSiteSummary {
    pub block: Option<SalsaTextRangeSummary>,
    pub condition: Option<SalsaConditionSummary>,
}

/// An `if` statement: its `then` and `elseif` clauses in order, and its `else`
/// clause with the text of its block, where it has one.
#[derive(Debug)]
pub struct SalsaIfSiteSummary {
    pub clauses: Vec<SalsaIfClauseSiteSummary>,
    pub else_block: Option<Option<SalsaTextRangeSummary>>,
}

/// The last statement of a block, as far as leaving the block goes: a
/// `return`, a `break`, a call of `error`, a `do` block, an `if` with its
/// clauses' blocks, or another statement.
#[derive(Debug)]
pub enum SalsaExitStatSummary {
    Return,
    Break,
    ErrorCall,
    Do { block: Option<Box<SalsaExitBlockSummary>> },
    If {
        then_block: Option<Box<SalsaExitBlockSummary>>,
        else_if_blocks: Vec<Option<SalsaExitBlockSummary>>,
        else_clause: Option<Option<Box<SalsaExitBlockSummary>>>,
    },
    Other,
}

/// A block, as far as leaving it goes: its last statement, if any.
#[derive(Debug)]
pub struct SalsaExitBlockSummary {
    pub last_stat: Option<Box<SalsaExitStatSummary>>,
}

/// An `if` statement as a guard clause: the block it stands in, where it
/// starts and ends, whether it has an `elseif` or `else`, its `then` block and
/// its condition.
#[derive(Debug)]
pub struct SalsaGuardSiteSummary {
    pub block: SalsaTextRangeSummary,
    pub syntax_offset: u32,
    pub end_offset: u32,
    pub has_other_clauses: bool,
    pub then_block: Option<SalsaExitBlockSummary>,
    pub condition: Option<SalsaConditionSummary>,
}

/// A call of `assert`: where it starts, the block it stands in and its first
/// argument.
#[derive(Debug)]
pub struct SalsaAssertSiteSummary {
    pub syntax_offset: u32,
    pub block: Option<SalsaTextRangeSummary>,
    pub first_arg: Option<SalsaConditionSummary>,
}

/// What narrowing reads of a file: the text of every block, its `if`
/// statements (as clauses and as guard clauses) and its `assert` calls, each in
/// the order they are written.
#[derive(Debug)]
pub struct SalsaNarrowSiteIndexSummary {
    pub blocks: Vec<SalsaTextRangeSummary>,
    pub if_sites: Vec<SalsaIfSiteSummary>,
    pub guard_sites: Vec<SalsaGuardSiteSummary>,
    pub assert_sites: Vec<SalsaAssertSiteSummary>,
}

/// Offset `p` lies in range `r`.
pub open spec fn in_range(r: SalsaTextRangeSummary, p: u32) -> bool {
    r.start <= p && p < r.end
}

/// A block always leaves: its last statement does.
pub open spec fn block_exits(b: SalsaExitBlockSummary) -> bool
    decreases b, 0int,
{
    match b.last_stat {
        Some(s) => stat_exits(*s),
        None => false,
    }
}

/// A statement always leaves its block: a `return`, `break` or call of `error`;
/// a `do` block that leaves; an `if` whose every clause has a block that
/// leaves, `else` included.
pub open spec fn stat_exits(s: SalsaExitStatSummary) -> bool
    decreases s, 0int,
{
    match s {
        SalsaExitStatSummary::Return | SalsaExitStatSummary::Break | SalsaExitStatSummary::ErrorCall => true,
        SalsaExitStatSummary::Do { block } => match block {
            Some(b) => block_exits(*b),
            None => false,
        },
        SalsaExitStatSummary::If { then_block, else_if_blocks, else_clause } => {
            &&& match then_block {
                Some(b) => block_exits(*b),
                None => false,
            }
            &&& all_blocks_exit(else_if_blocks@, 0)
            &&& match else_clause {
                Some(Some(b)) => block_exits(*b),
                _ => false,
            }
        },
        SalsaExitStatSummary::Other => false,
    }
}

/// Every block from position `k` on is there and leaves.
pub open spec fn all_blocks_exit(bs: Seq<Option<SalsaExitBlockSummary>>, k: int) -> bool
    decreases bs, bs.len() - k,
{
    if k < 0 || k >= bs.len() {
        true
    } else {
        match bs[k] {
            Some(b) => block_exits(b) && all_blocks_exit(bs, k + 1),
            None => false,
        }
    }
}

/// The narrows of the conditions of the first `k` clauses, each failed.
pub open spec fn failed_clause_narrows(
    tree: SalsaDeclTreeSummary,
    clauses: Seq<SalsaIfClauseSiteSummary>,
    k: int,
    decl: u32,
) -> Seq<SalsaTypeNarrowSummary>
    decreases k,
{
    if k <= 0 || k > clauses.len() {
        seq![]
    } else {
        failed_clause_narrows(tree, clauses, k - 1, decl) + match clauses[k - 1].condition {
            Some(c) => condition_narrows(tree, c, decl, false),
            None => seq![],
        }
    }
}

/// The narrows of an `if` at `p`, looking from clause `k` on: in the first
/// clause whose block covers `p`, the earlier conditions failed and its own
/// holds; in an `else` block that covers `p`, every condition failed.
pub open spec fn if_clause_narrows(
    tree: SalsaDeclTreeSummary,
    site: SalsaIfSiteSummary,
    k: int,
    decl: u32,
    p: u32,
) -> Seq<SalsaTypeNarrowSummary>
    decreases site.clauses@.len() - k,
{
    let clauses = site.clauses@;
    if k < 0 || k >= clauses.len() {
        match site.else_block {
            Some(Some(b)) => if in_range(b, p) { failed_clause_narrows(tree, clauses, clauses.len() as int, decl) } else { seq![] },
            _ => seq![],
        }
    } else {
        match clauses[k].block {
            Some(b) => if in_range(b, p) {
                failed_clause_narrows(tree, clauses, k, decl) + match clauses[k].condition {
                    Some(c) => condition_narrows(tree, c, decl, true),
                    None => seq![],
                }
            } else {
                if_clause_narrows(tree, site, k + 1, decl, p)
            },
            None => if_clause_narrows(tree, site, k + 1, decl, p),
        }
    }
}

/// The narrows of the `if` statements, in order.
pub open spec fn if_sites_narrows(tree: SalsaDeclTreeSummary, sites: Seq<SalsaIfSiteSummary>, decl: u32, p: u32) -> Seq<
    SalsaTypeNarrowSummary,
>
    decreases sites.len(),
{
    if sites.len() == 0 {
        seq![]
    } else {
        if_sites_narrows(tree, sites.drop_last(), decl, p) + if_clause_narrows(tree, sites.last(), 0, decl, p)
    }
}

/// The first of the shortest blocks that cover `p`.
pub open spec fn tightest_block(blocks: Seq<SalsaTextRangeSummary>, p: u32) -> Option<SalsaTextRangeSummary>
    decreases blocks.len(),
{
    if blocks.len() == 0 {
        None
    } else {
        let prev = tightest_block(blocks.drop_last(), p);
        let b = blocks.last();
        if in_range(b, p) && match prev {
            None => true,
            Some(q) => b.end - b.start < q.end - q.start,
        } {
            Some(b)
        } else {
            prev
        }
    }
}

/// The narrows of a guard clause before `p` in block `pb`: an `if` with no
/// other clause, ended before `p`, whose `then` block always leaves; its
/// condition failed.
pub open spec fn guard_narrows(
    tree: SalsaDeclTreeSummary,
    g: SalsaGuardSiteSummary,
    pb: SalsaTextRangeSummary,
    decl: u32,
    p: u32,
) -> Seq<SalsaTypeNarrowSummary> {
    if g.block == pb && g.syntax_offset < p && !g.has_other_clauses && g.end_offset < p && match g.then_block {
        Some(tb) => block_exits(tb),
        None => false,
    } {
        match g.condition {
            Some(c) => condition_narrows(tree, c, decl, false),
            None => seq![],
        }
    } else {
        seq![]
    }
}

pub open spec fn guards_narrows(
    tree: SalsaDeclTreeSummary,
    gs: Seq<SalsaGuardSiteSummary>,
    pb: SalsaTextRangeSummary,
    decl: u32,
    p: u32,
) -> Seq<SalsaTypeNarrowSummary>
    decreases gs.len(),
{
    if gs.len() == 0 {
        seq![]
    } else {
        guards_narrows(tree, gs.drop_last(), pb, decl, p) + guard_narrows(tree, gs.last(), pb, decl, p)
    }
}

/// The narrows of an `assert` before `p` in block `pb`: its first argument holds.
pub open spec fn assert_narrows(
    tree: SalsaDeclTreeSummary,
    a: SalsaAssertSiteSummary,
    pb: SalsaTextRangeSummary,
    decl: u32,
    p: u32,
) -> Seq<SalsaTypeNarrowSummary> {
    if a.syntax_offset < p && a.block == Some(pb) {
        match a.first_arg {
            Some(c) => condition_narrows(tree, c, decl, true),
            None => seq![],
        }
    } else {
        seq![]
    }
}

pub open spec fn asserts_narrows(
    tree: SalsaDeclTreeSummary,
    asserts: Seq<SalsaAssertSiteSummary>,
    pb: SalsaTextRangeSummary,
    decl: u32,
    p: u32,
) -> Seq<SalsaTypeNarrowSummary>
    decreases asserts.len(),
{
    if asserts.len() == 0 {
        seq![]
    } else {
        asserts_narrows(tree, asserts.drop_last(), pb, decl, p) + assert_narrows(tree, asserts.last(), pb, decl, p)
    }
}

/// The narrows of `decl` at `p`: those of the `if` clauses around it, then,
/// within the tightest block around it, those of its guard clauses and of its
/// `assert` calls before it.
pub open spec fn spec_active_narrows(
    tree: SalsaDeclTreeSummary,
    sites: SalsaNarrowSiteIndexSummary,
    decl: u32,
    p: u32,
) -> Seq<SalsaTypeNarrowSummary> {
    if_sites_narrows(tree, sites.if_sites@, decl, p) + match tightest_block(sites.blocks@, p) {
        None => seq![],
        Some(pb) => guards_narrows(tree, sites.guard_sites@, pb, decl, p) + asserts_narrows(
            tree,
            sites.assert_sites@,
            pb,
            decl,
            p,
        ),
    }
}

/// Whether a block always leaves (see `block_exits`).
pub fn block_guarantees_exit(b: &SalsaExitBlockSummary) -> (r: bool)
    ensures
        r == block_exits(*b),
    decreases *b, 0int,
{
    match &b.last_stat {
        Some(s) => stat_guarantees_exit(s),
        None => false,
    }
}

/// Whether a statement always leaves its block (see `stat_exits`).
pub fn stat_guarantees_exit(s: &SalsaExitStatSummary) -> (r: bool)
    ensures
        r == stat_exits(*s),
    decreases *s, 0int,
{
    match s {
        SalsaExitStatSummary::Return | SalsaExitStatSummary::Break | SalsaExitStatSummary::ErrorCall => true,
        SalsaExitStatSummary::Do { block } => match block {
            Some(b) => block_guarantees_exit(b),
            None => false,
        },
        SalsaExitStatSummary::If { then_block, else_if_blocks, else_clause } => {
            let then_exits = match then_block {
                Some(b) => block_guarantees_exit(b),
                None => false,
            };
            if !then_exits {
                return false;
            }
            if !all_blocks_exit_exec(else_if_blocks, 0) {
                return false;
            }
            match else_clause {
                Some(Some(b)) => block_guarantees_exit(b),
                _ => false,
            }
        },
        SalsaExitStatSummary::Other => false,
    }
}

fn all_blocks_exit_exec(bs: &Vec<Option<SalsaExitBlockSummary>>, k: usize) -> (r: bool)
    ensures
        r == all_blocks_exit(bs@, k as int),
    decreases bs@, bs@.len() - k,
{
    if k >= bs.len() {
        return true;
    }
    match &bs[k] {
        Some(b) => block_guarantees_exit(b) && all_blocks_exit_exec(bs, k + 1),
        None => false,
    }
}

fn failed_clause_narrows_exec(
    tree: &SalsaDeclTreeSummary,
    clauses: &Vec<SalsaIfClauseSiteSummary>,
    k: usize,
    decl: u32,
) -> (r: Vec<SalsaTypeNarrowSummary>)
    requires
        k <= clauses@.len(),
    ensures
        r@ == failed_clause_narrows(*tree, clauses@, k as int, decl),
{
    let mut r: Vec<SalsaTypeNarrowSummary> = Vec::new();
    let mut i: usize = 0;
    while i < k
        invariant
            i <= k <= clauses@.len(),
            r@ == failed_clause_narrows(*tree, clauses@, i as int, decl),
        decreases k - i,
    {
        match &clauses[i].condition {
            Some(c) => {
                let mut n = collect_condition_narrows_for_expr(tree, c, decl, false);
                r.append(&mut n);
            },
            None => {},
        }
        i = i + 1;
    }
    r
}

fn if_clause_narrows_exec(tree: &SalsaDeclTreeSummary, site: &SalsaIfSiteSummary, decl: u32, p: u32) -> (r: Vec<
    SalsaTypeNarrowSummary,
>)
    ensures
        r@ == if_clause_narrows(*tree, *site, 0, decl, p),
{
    let clauses = &site.clauses;
    let mut k: usize = 0;
    while k < clauses.len()
        invariant
            k <= clauses@.len(),
            clauses == &site.clauses,
            if_clause_narrows(*tree, *site, 0, decl, p) == if_clause_narrows(*tree, *site, k as int, decl, p),
        decreases clauses@.len() - k,
    {
        match &clauses[k].block {
            Some(b) => {
                if b.start <= p && p < b.end {
                    let mut r = failed_clause_narrows_exec(tree, clauses, k, decl);
                    match &clauses[k].condition {
                        Some(c) => {
                            let mut n = collect_condition_narrows_for_expr(tree, c, decl, true);
                            r.append(&mut n);
                        },
                        None => {},
                    }
                    return r;
                }
            },
            None => {},
        }
        k = k + 1;
    }
    match &site.else_block {
        Some(Some(b)) => if b.start <= p && p < b.end {
            failed_clause_narrows_exec(tree, clauses, clauses.len(), decl)
        } else {
            Vec::new()
        },
        _ => Vec::new(),
    }
}

fn tightest_block_exec(blocks: &Vec<SalsaTextRangeSummary>, p: u32) -> (r: Option<SalsaTextRangeSummary>)
    ensures
        r == tightest_block(blocks@, p),
{
    let mut best: Option<SalsaTextRangeSummary> = None;
    let mut i: usize = 0;
    assert(blocks@.take(0) =~= Seq::<SalsaTextRangeSummary>::empty());
    while i < blocks.len()
        invariant
            i <= blocks@.len(),
            best == tightest_block(blocks@.take(i as int), p),
            match best {
                Some(q) => q.start <= p < q.end,
                None => true,
            },
        decreases blocks@.len() - i,
    {
        assert(blocks@.take(i + 1).drop_last() =~= blocks@.take(i as int));
        assert(blocks@.take(i + 1).last() == blocks@[i as int]);
        let b = blocks[i];
        if b.start <= p && p < b.end {
            let better = match best {
                None => true,
                Some(q) => b.end - b.start < q.end - q.start,
            };
            if better {
                best = Some(b);
            }
        }
        i = i + 1;
    }
    assert(blocks@.take(i as int) =~= blocks@);
    best
}

/// The narrows of `decl_id` at `program_point_offset` (see
/// `spec_active_narrows`).
pub fn collect_active_type_narrows(
    decl_tree: &SalsaDeclTreeSummary,
    sites: &SalsaNarrowSiteIndexSummary,
    decl_id: u32,
    program_point_offset: u32,
) -> (r: Vec<SalsaTypeNarrowSummary>)
    ensures
        r@ == spec_active_narrows(*decl_tree, *sites, decl_id, program_point_offset),
{
    let p = program_point_offset;
    let mut r: Vec<SalsaTypeNarrowSummary> = Vec::new();
    let mut i: usize = 0;
    assert(sites.if_sites@.take(0) =~= Seq::<SalsaIfSiteSummary>::empty());
    while i < sites.if_sites.len()
        invariant
            i <= sites.if_sites@.len(),
            r@ == if_sites_narrows(*decl_tree, sites.if_sites@.take(i as int), decl_id, p),
        decreases sites.if_sites@.len() - i,
    {
        assert(sites.if_sites@.take(i + 1).drop_last() =~= sites.if_sites@.take(i as int));
        assert(sites.if_sites@.take(i + 1).last() == sites.if_sites@[i as int]);
        let mut n = if_clause_narrows_exec(decl_tree, &sites.if_sites[i], decl_id, p);
        r.append(&mut n);
        i = i + 1;
    }
    assert(sites.if_sites@.take(i as int) =~= sites.if_sites@);
    let pb = match tightest_block_exec(&sites.blocks, p) {
        Some(b) => b,
        None => {
            assert(r@ =~= spec_active_narrows(*decl_tree, *sites, decl_id, p));
            return r;
        },
    };
    let ghost head = r@;
    let mut j: usize = 0;
    assert(sites.guard_sites@.take(0) =~= Seq::<SalsaGuardSiteSummary>::empty());
    while j < sites.guard_sites.len()
        invariant
            j <= sites.guard_sites@.len(),
            r@ == head + guards_narrows(*decl_tree, sites.guard_sites@.take(j as int), pb, decl_id, p),
        decreases sites.guard_sites@.len() - j,
    {
        assert(sites.guard_sites@.take(j + 1).drop_last() =~= sites.guard_sites@.take(j as int));
        assert(sites.guard_sites@.take(j + 1).last() == sites.guard_sites@[j as int]);
        let g = &sites.guard_sites[j];
        let applies = g.block == pb && g.syntax_offset < p && !g.has_other_clauses && g.end_offset < p && match &g.then_block {
            Some(tb) => block_guarantees_exit(tb),
            None => false,
        };
        if applies {
            match &g.condition {
                Some(c) => {
                    let mut n = collect_condition_narrows_for_expr(decl_tree, c, decl_id, false);
                    r.append(&mut n);
                },
                None => {},
            }
        }
        assert(r@ =~= head + guards_narrows(*decl_tree, sites.guard_sites@.take(j + 1), pb, decl_id, p));
        j = j + 1;
    }
    assert(sites.guard_sites@.take(j as int) =~= sites.guard_sites@);
    let ghost mid = r@;
    let mut k: usize = 0;
    assert(sites.assert_sites@.take(0) =~= Seq::<SalsaAssertSiteSummary>::empty());
    while k < sites.assert_sites.len()
        invariant
            k <= sites.assert_sites@.len(),
            r@ == mid + asserts_narrows(*decl_tree, sites.assert_sites@.take(k as int), pb, decl_id, p),
        decreases sites.assert_sites@.len() - k,
    {
        assert(sites.assert_sites@.take(k + 1).drop_last() =~= sites.assert_sites@.take(k as int));
        assert(sites.assert_sites@.take(k + 1).last() == sites.assert_sites@[k as int]);
        let a = &sites.assert_sites[k];
        let applies = a.syntax_offset < p && match a.block {
            Some(b) => b == pb,
            None => false,
        };
        if applies {
            match &a.first_arg {
                Some(c) => {
                    let mut n = collect_condition_narrows_for_expr(decl_tree, c, decl_id, true);
                    r.append(&mut n);
                },
                None => {},
            }
        }
        assert(r@ =~= mid + asserts_narrows(*decl_tree, sites.assert_sites@.take(k + 1), pb, decl_id, p));
        k = k + 1;
    }
    assert(sites.assert_sites@.take(k as int) =~= sites.assert_sites@);
    assert(r@ =~= spec_active_narrows(*decl_tree, *sites, decl_id, p));
    r
}

} // verus!
