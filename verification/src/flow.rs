//! The flow graph of a chunk: nodes for blocks, statements, conditions and
//! jumps, the edges between them, and queries over that graph.
use vstd::prelude::*;

use crate::lookup::{Keyed, last_with_key, lemma_last_index_with_key, find_last_index};
use crate::flow_model::{
    SalsaFlowBlockOwnerKindSummary, SalsaFlowBlockSummary, SalsaFlowBranchClauseSummary,
    SalsaFlowBranchSummary, SalsaFlowConditionKindSummary, SalsaFlowGotoSummary,
    SalsaFlowJumpSummary, SalsaFlowLoopKindSummary, SalsaFlowLoopSummary,
    SalsaFlowStatementKindSummary, SalsaFlowStatementSummary, SalsaFlowSummary,
    spec_find_block, spec_find_statement, spec_find_condition, spec_find_branch, spec_find_loop,
    spec_find_owned_block, spec_branch_of_clause, spec_region_root, spec_enclosing_loop,
    spec_resolve_goto_label, spec_is_flow_region_root, find_block, find_statement,
    find_condition, find_branch, find_loop, find_owned_block, branch_offset_of_clause,
    region_root_of, enclosing_loop_of, resolve_goto_target_label, is_flow_region_root,
};

verus! {

/// A node of the flow graph, named by the syntax offset it stands for.
#[derive(Clone, Copy, Debug, PartialEq, Eq, Structural)]
pub enum SalsaFlowNodeRefSummary {
    Block(u32),
    Statement(u32),
    Condition(u32),
    Branch(u32),
    Loop(u32),
    Merge(u32),
    Return(u32),
    Break(u32),
    Goto(u32),
    Label(u32),
    Unreachable(u32),
}

#[derive(Clone, Copy, Debug, PartialEq, Eq, Structural)]
pub enum SalsaFlowEdgeKindSummary {
    BlockToStatement,
    StatementFallthrough,
    StatementToBlock,
    MergeToNext,
    StatementToBranch,
    StatementToCondition,
    BranchToClause,
    ClauseToMerge,
    StatementToLoop,
    LoopToBody,
    LoopContinue,
    LoopToMerge,
    StatementToTerminal,
    TerminalToTarget,
    TerminalToUnreachable,
    GotoToLabel,
    StatementToLabel,
    LabelToNext,
    ConditionEnter,
    ConditionTrue,
    ConditionFalse,
}

#[derive(Clone, Copy, Debug, PartialEq, Eq, Structural)]
pub struct SalsaFlowEdgeSummary {
    pub kind: SalsaFlowEdgeKindSummary,
    pub from: SalsaFlowNodeRefSummary,
    pub to: SalsaFlowNodeRefSummary,
}

#[derive(Clone, Debug)]
pub struct SalsaFlowBranchLinkSummary {
    pub branch_offset: u32,
    pub entry_block_offset: Option<u32>,
    pub clause_block_offsets: Vec<u32>,
    pub exit_block_offset: Option<u32>,
}

#[derive(Clone, Copy, Debug, PartialEq, Eq, Structural)]
pub struct SalsaFlowLoopLinkSummary {
    pub loop_offset: u32,
    pub entry_block_offset: Option<u32>,
    pub body_block_offset: Option<u32>,
    pub continue_block_offset: Option<u32>,
    pub exit_block_offset: Option<u32>,
}

#[derive(Clone, Copy, Debug, PartialEq, Eq, Structural)]
pub struct SalsaFlowReturnLinkSummary {
    pub return_offset: u32,
    pub block_offset: Option<u32>,
    pub exit_root_block_offset: Option<u32>,
}

#[derive(Clone, Copy, Debug, PartialEq, Eq, Structural)]
pub struct SalsaFlowBreakLinkSummary {
    pub break_offset: u32,
    pub block_offset: Option<u32>,
    pub enclosing_loop_offset: Option<u32>,
    pub exit_block_offset: Option<u32>,
}

#[derive(Clone, Copy, Debug, PartialEq, Eq, Structural)]
pub struct SalsaFlowGotoLinkSummary {
    pub goto_offset: u32,
    pub block_offset: Option<u32>,
    pub target_label_offset: Option<u32>,
    pub target_block_offset: Option<u32>,
}

#[derive(Clone, Copy, Debug, PartialEq, Eq, Structural)]
pub enum SalsaFlowTerminalEdgeKindSummary {
    Return,
    Break,
    Goto,
}

#[derive(Clone, Copy, Debug, PartialEq, Eq, Structural)]
pub struct SalsaFlowTerminalEdgeSummary {
    pub kind: SalsaFlowTerminalEdgeKindSummary,
    pub syntax_offset: u32,
    pub source_block_offset: Option<u32>,
    pub target_block_offset: Option<u32>,
    pub target_label_offset: Option<u32>,
    pub flow_region_root_offset: Option<u32>,
}

#[derive(Clone, Debug)]
pub struct SalsaFlowQuerySummary {
    pub root_block_offsets: Vec<u32>,
    pub branch_links: Vec<SalsaFlowBranchLinkSummary>,
    pub loop_links: Vec<SalsaFlowLoopLinkSummary>,
    pub return_links: Vec<SalsaFlowReturnLinkSummary>,
    pub break_links: Vec<SalsaFlowBreakLinkSummary>,
    pub goto_links: Vec<SalsaFlowGotoLinkSummary>,
    pub terminal_edges: Vec<SalsaFlowTerminalEdgeSummary>,
    pub edges: Vec<SalsaFlowEdgeSummary>,
}

pub open spec fn edge(
    kind: SalsaFlowEdgeKindSummary,
    from: SalsaFlowNodeRefSummary,
    to: SalsaFlowNodeRefSummary,
) -> SalsaFlowEdgeSummary {
    SalsaFlowEdgeSummary { kind, from, to }
}

// ---------------------------------------------------------------------------
// Links.

/// The block that contains the block at `off`, when `off` is given.
pub open spec fn spec_parent_block(flow: SalsaFlowSummary, off: Option<u32>) -> Option<u32> {
    match off {
        None => None,
        Some(o) => match spec_find_block(flow, o) {
            None => None,
            Some(b) => b.parent_block_offset,
        },
    }
}

/// The blocks of the clauses of a branch, in clause order.
pub open spec fn spec_clause_block_offsets(clauses: Seq<SalsaFlowBranchClauseSummary>) -> Seq<u32>
    decreases clauses.len(),
{
    if clauses.len() == 0 {
        seq![]
    } else {
        let rest = spec_clause_block_offsets(clauses.drop_last());
        match clauses.last().block_offset {
            Some(b) => rest.push(b),
            None => rest,
        }
    }
}

/// What the link of a branch statement holds.
pub open spec fn spec_branch_link(
    flow: SalsaFlowSummary,
    branch: SalsaFlowBranchSummary,
    link: SalsaFlowBranchLinkSummary,
) -> bool {
    let offs = spec_clause_block_offsets(branch.clauses@);
    let entry = if offs.len() > 0 { spec_parent_block(flow, Some(offs[0])) } else { None };
    &&& link.branch_offset == branch.syntax_offset
    &&& link.clause_block_offsets@ == offs
    &&& link.entry_block_offset == entry
    &&& link.exit_block_offset == entry
}

pub open spec fn spec_loop_link(flow: SalsaFlowSummary, l: SalsaFlowLoopSummary) -> SalsaFlowLoopLinkSummary {
    SalsaFlowLoopLinkSummary {
        loop_offset: l.syntax_offset,
        entry_block_offset: spec_parent_block(flow, l.block_offset),
        body_block_offset: l.block_offset,
        continue_block_offset: l.block_offset,
        exit_block_offset: spec_parent_block(flow, l.block_offset),
    }
}

pub open spec fn spec_region_root_of_opt(flow: SalsaFlowSummary, off: Option<u32>) -> Option<u32> {
    match off {
        None => None,
        Some(o) => spec_region_root(flow, o),
    }
}

pub open spec fn spec_return_link(flow: SalsaFlowSummary, r: SalsaFlowJumpSummary) -> SalsaFlowReturnLinkSummary {
    SalsaFlowReturnLinkSummary {
        return_offset: r.syntax_offset,
        block_offset: r.block_offset,
        exit_root_block_offset: spec_region_root_of_opt(flow, r.block_offset),
    }
}

/// The block that a loop leaves into: the parent of its body.
pub open spec fn spec_loop_exit_block(flow: SalsaFlowSummary, loop_offset: Option<u32>) -> Option<u32> {
    match loop_offset {
        None => None,
        Some(lo) => match spec_find_loop(flow, lo) {
            None => None,
            Some(l) => spec_parent_block(flow, l.block_offset),
        },
    }
}

pub open spec fn spec_break_link(flow: SalsaFlowSummary, b: SalsaFlowJumpSummary) -> SalsaFlowBreakLinkSummary {
    let enclosing = match b.block_offset {
        None => None,
        Some(o) => spec_enclosing_loop(flow, o),
    };
    SalsaFlowBreakLinkSummary {
        break_offset: b.syntax_offset,
        block_offset: b.block_offset,
        enclosing_loop_offset: enclosing,
        exit_block_offset: spec_loop_exit_block(flow, enclosing),
    }
}

pub open spec fn spec_goto_link(flow: SalsaFlowSummary, g: SalsaFlowGotoSummary) -> SalsaFlowGotoLinkSummary {
    let label = match g.block_offset {
        None => None,
        Some(o) => spec_resolve_goto_label(flow, g, o),
    };
    SalsaFlowGotoLinkSummary {
        goto_offset: g.syntax_offset,
        block_offset: g.block_offset,
        target_label_offset: match label { Some(l) => Some(l.syntax_offset), None => None },
        target_block_offset: match label { Some(l) => l.block_offset, None => None },
    }
}

pub open spec fn spec_return_terminal(flow: SalsaFlowSummary, r: SalsaFlowJumpSummary) -> SalsaFlowTerminalEdgeSummary {
    let link = spec_return_link(flow, r);
    SalsaFlowTerminalEdgeSummary {
        kind: SalsaFlowTerminalEdgeKindSummary::Return,
        syntax_offset: link.return_offset,
        source_block_offset: link.block_offset,
        target_block_offset: link.exit_root_block_offset,
        target_label_offset: None,
        flow_region_root_offset: link.exit_root_block_offset,
    }
}

pub open spec fn spec_break_terminal(flow: SalsaFlowSummary, b: SalsaFlowJumpSummary) -> SalsaFlowTerminalEdgeSummary {
    let link = spec_break_link(flow, b);
    SalsaFlowTerminalEdgeSummary {
        kind: SalsaFlowTerminalEdgeKindSummary::Break,
        syntax_offset: link.break_offset,
        source_block_offset: link.block_offset,
        target_block_offset: link.exit_block_offset,
        target_label_offset: None,
        flow_region_root_offset: spec_region_root_of_opt(flow, link.block_offset),
    }
}

pub open spec fn spec_goto_terminal(flow: SalsaFlowSummary, g: SalsaFlowGotoSummary) -> SalsaFlowTerminalEdgeSummary {
    let link = spec_goto_link(flow, g);
    SalsaFlowTerminalEdgeSummary {
        kind: SalsaFlowTerminalEdgeKindSummary::Goto,
        syntax_offset: link.goto_offset,
        source_block_offset: link.block_offset,
        target_block_offset: link.target_block_offset,
        target_label_offset: link.target_label_offset,
        flow_region_root_offset: spec_region_root_of_opt(flow, link.block_offset),
    }
}

/// The offsets of the blocks that root a flow region, in block order.
pub open spec fn spec_root_block_offsets(blocks: Seq<SalsaFlowBlockSummary>) -> Seq<u32>
    decreases blocks.len(),
{
    if blocks.len() == 0 {
        seq![]
    } else {
        let rest = spec_root_block_offsets(blocks.drop_last());
        if spec_is_flow_region_root(blocks.last()) { rest.push(blocks.last().syntax_offset) } else { rest }
    }
}

} // verus!

verus! {

// ---------------------------------------------------------------------------
// Where control goes after a statement.

/// Index of the first occurrence of `x` in `s`, or -1.
pub open spec fn spec_position(s: Seq<u32>, x: u32) -> int
    decreases s.len(),
{
    if s.len() == 0 {
        -1
    } else {
        let r = spec_position(s.drop_last(), x);
        if r >= 0 { r } else if s.last() == x { s.len() - 1 } else { -1 }
    }
}

pub open spec fn spec_find_return(flow: SalsaFlowSummary, off: u32) -> Option<SalsaFlowJumpSummary> {
    last_with_key(flow.returns@, off)
}

pub open spec fn spec_find_break(flow: SalsaFlowSummary, off: u32) -> Option<SalsaFlowJumpSummary> {
    last_with_key(flow.breaks@, off)
}

pub open spec fn spec_find_goto(flow: SalsaFlowSummary, off: u32) -> Option<SalsaFlowGotoSummary> {
    last_with_key(flow.gotos@, off)
}

/// The node that control reaches after the statement `s`: the next statement of
/// its block, or wherever the block completes to.
pub open spec fn successor_fuel(flow: SalsaFlowSummary, s: SalsaFlowStatementSummary, fuel: nat) -> Option<SalsaFlowNodeRefSummary>
    decreases fuel, 1nat,
{
    match spec_find_block(flow, s.block_offset) {
        None => None,
        Some(b) => {
            let offs = b.statement_offsets@;
            let i = spec_position(offs, s.syntax_offset);
            if i < 0 {
                None
            } else if i + 1 < offs.len() {
                Some(SalsaFlowNodeRefSummary::Statement(offs[i + 1]))
            } else {
                completion_fuel(flow, b.syntax_offset, fuel)
            }
        },
    }
}

/// Where control goes when the block at `off` runs to its end, following at most
/// `fuel` enclosing blocks.
pub open spec fn completion_fuel(flow: SalsaFlowSummary, off: u32, fuel: nat) -> Option<SalsaFlowNodeRefSummary>
    decreases fuel, 0nat,
{
    if fuel == 0 {
        None
    } else {
        match spec_find_block(flow, off) {
            None => None,
            Some(b) => match b.owner_kind {
                SalsaFlowBlockOwnerKindSummary::Chunk
                | SalsaFlowBlockOwnerKindSummary::FuncStat
                | SalsaFlowBlockOwnerKindSummary::LocalFuncStat
                | SalsaFlowBlockOwnerKindSummary::ClosureExpr => None,
                SalsaFlowBlockOwnerKindSummary::WhileStat
                | SalsaFlowBlockOwnerKindSummary::RepeatStat
                | SalsaFlowBlockOwnerKindSummary::ForStat
                | SalsaFlowBlockOwnerKindSummary::ForRangeStat => match spec_find_loop(flow, b.owner_offset) {
                    Some(l) => match l.condition_node_offset {
                        Some(c) => Some(SalsaFlowNodeRefSummary::Condition(c)),
                        None => Some(SalsaFlowNodeRefSummary::Loop(b.owner_offset)),
                    },
                    None => Some(SalsaFlowNodeRefSummary::Loop(b.owner_offset)),
                },
                SalsaFlowBlockOwnerKindSummary::IfStat | SalsaFlowBlockOwnerKindSummary::DoStat =>
                    match spec_find_statement(flow, b.owner_offset) {
                        None => None,
                        Some(st) => successor_fuel(flow, st, (fuel - 1) as nat),
                    },
                SalsaFlowBlockOwnerKindSummary::ElseIfClause | SalsaFlowBlockOwnerKindSummary::ElseClause =>
                    match spec_branch_of_clause(flow.branches@, b.owner_offset) {
                        None => None,
                        Some(br) => match spec_find_statement(flow, br) {
                            None => None,
                            Some(st) => successor_fuel(flow, st, (fuel - 1) as nat),
                        },
                    },
                SalsaFlowBlockOwnerKindSummary::Other => match b.parent_block_offset {
                    None => None,
                    Some(p) => completion_fuel(flow, p, (fuel - 1) as nat),
                },
            },
        }
    }
}

/// The successor of a statement. Leaving a block passes through at most as many
/// blocks as there are: a longer chain runs in a circle and has no successor.
pub open spec fn spec_successor(flow: SalsaFlowSummary, s: SalsaFlowStatementSummary) -> Option<SalsaFlowNodeRefSummary> {
    successor_fuel(flow, s, flow.blocks@.len())
}

// ---------------------------------------------------------------------------
// Edges of conditions.

/// The edges of the condition at `c`, with `t` and `f` the targets when it holds
/// and when it does not. `and` and `or` conditions are short-circuited through
/// their operands, nested at most `fuel` deep.
pub open spec fn condition_edges_fuel(
    flow: SalsaFlowSummary,
    c: u32,
    t: SalsaFlowNodeRefSummary,
    f: SalsaFlowNodeRefSummary,
    fuel: nat,
) -> Seq<SalsaFlowEdgeSummary>
    decreases fuel,
{
    if fuel == 0 {
        seq![]
    } else {
        let me = SalsaFlowNodeRefSummary::Condition(c);
        match spec_find_condition(flow, c) {
            None => seq![],
            Some(cond) => match cond.kind {
                SalsaFlowConditionKindSummary::Expr => seq![
                    edge(SalsaFlowEdgeKindSummary::ConditionTrue, me, t),
                    edge(SalsaFlowEdgeKindSummary::ConditionFalse, me, f),
                ],
                SalsaFlowConditionKindSummary::And => match (cond.left_condition_offset, cond.right_condition_offset) {
                    (Some(l), Some(r)) =>
                        seq![edge(SalsaFlowEdgeKindSummary::ConditionEnter, me, SalsaFlowNodeRefSummary::Condition(l))]
                            + condition_edges_fuel(flow, l, SalsaFlowNodeRefSummary::Condition(r), f, (fuel - 1) as nat)
                            + condition_edges_fuel(flow, r, t, f, (fuel - 1) as nat),
                    _ => seq![],
                },
                SalsaFlowConditionKindSummary::Or => match (cond.left_condition_offset, cond.right_condition_offset) {
                    (Some(l), Some(r)) =>
                        seq![edge(SalsaFlowEdgeKindSummary::ConditionEnter, me, SalsaFlowNodeRefSummary::Condition(l))]
                            + condition_edges_fuel(flow, l, t, SalsaFlowNodeRefSummary::Condition(r), (fuel - 1) as nat)
                            + condition_edges_fuel(flow, r, t, f, (fuel - 1) as nat),
                    _ => seq![],
                },
            },
        }
    }
}

/// The edges of a condition tree. Nesting deeper than there are conditions runs
/// in a circle; such a tree stops there.
pub open spec fn spec_condition_edges(
    flow: SalsaFlowSummary,
    c: u32,
    t: SalsaFlowNodeRefSummary,
    f: SalsaFlowNodeRefSummary,
) -> Seq<SalsaFlowEdgeSummary> {
    condition_edges_fuel(flow, c, t, f, flow.conditions@.len())
}

/// Where the condition of clause `i` of a branch leads when it fails: the next
/// clause's condition, else its block, else the merge node.
pub open spec fn spec_clause_false_target(
    branch: SalsaFlowBranchSummary,
    merge: SalsaFlowNodeRefSummary,
    i: int,
) -> SalsaFlowNodeRefSummary {
    if i + 1 < branch.clauses@.len() {
        let next = branch.clauses@[i + 1];
        match next.condition_node_offset {
            Some(nc) => SalsaFlowNodeRefSummary::Condition(nc),
            None => match next.block_offset {
                Some(nb) => SalsaFlowNodeRefSummary::Block(nb),
                None => merge,
            },
        }
    } else {
        merge
    }
}

pub open spec fn spec_clause_condition_edges(
    flow: SalsaFlowSummary,
    branch: SalsaFlowBranchSummary,
    merge: SalsaFlowNodeRefSummary,
    i: int,
) -> Seq<SalsaFlowEdgeSummary> {
    let clause = branch.clauses@[i];
    match clause.condition_node_offset {
        None => seq![],
        Some(c) => {
            let t = match clause.block_offset {
                Some(b) => SalsaFlowNodeRefSummary::Block(b),
                None => merge,
            };
            spec_condition_edges(flow, c, t, spec_clause_false_target(branch, merge, i))
        },
    }
}

/// The condition edges of the first `n` clauses of a branch.
pub open spec fn spec_branch_condition_edges(
    flow: SalsaFlowSummary,
    branch: SalsaFlowBranchSummary,
    merge: SalsaFlowNodeRefSummary,
    n: nat,
) -> Seq<SalsaFlowEdgeSummary>
    decreases n,
{
    if n == 0 {
        seq![]
    } else {
        spec_branch_condition_edges(flow, branch, merge, (n - 1) as nat)
            + spec_clause_condition_edges(flow, branch, merge, n - 1)
    }
}

// ---------------------------------------------------------------------------
// Edges of blocks and statements.

/// One edge of `kind` from `from` to each block in `offs`.
pub open spec fn spec_edges_to_blocks(
    kind: SalsaFlowEdgeKindSummary,
    from: SalsaFlowNodeRefSummary,
    offs: Seq<u32>,
) -> Seq<SalsaFlowEdgeSummary>
    decreases offs.len(),
{
    if offs.len() == 0 {
        seq![]
    } else {
        spec_edges_to_blocks(kind, from, offs.drop_last()).push(
            edge(kind, from, SalsaFlowNodeRefSummary::Block(offs.last())))
    }
}

/// One edge of `kind` from each block in `offs` to `to`.
pub open spec fn spec_edges_from_blocks(
    kind: SalsaFlowEdgeKindSummary,
    offs: Seq<u32>,
    to: SalsaFlowNodeRefSummary,
) -> Seq<SalsaFlowEdgeSummary>
    decreases offs.len(),
{
    if offs.len() == 0 {
        seq![]
    } else {
        spec_edges_from_blocks(kind, offs.drop_last(), to).push(
            edge(kind, SalsaFlowNodeRefSummary::Block(offs.last()), to))
    }
}

pub open spec fn spec_falls_through(k: SalsaFlowStatementKindSummary) -> bool {
    k == SalsaFlowStatementKindSummary::Linear || k == SalsaFlowStatementKindSummary::Do
}

/// The fall-through edge from statement `k` to statement `k + 1` of a block.
pub open spec fn spec_pair_edge(flow: SalsaFlowSummary, offs: Seq<u32>, k: int) -> Seq<SalsaFlowEdgeSummary> {
    match spec_find_statement(flow, offs[k]) {
        Some(s) => if spec_falls_through(s.kind) {
            seq![edge(SalsaFlowEdgeKindSummary::StatementFallthrough,
                SalsaFlowNodeRefSummary::Statement(offs[k]), SalsaFlowNodeRefSummary::Statement(offs[k + 1]))]
        } else {
            seq![]
        },
        None => seq![],
    }
}

pub open spec fn spec_fallthrough_edges(flow: SalsaFlowSummary, offs: Seq<u32>, n: nat) -> Seq<SalsaFlowEdgeSummary>
    decreases n,
{
    if n == 0 {
        seq![]
    } else {
        spec_fallthrough_edges(flow, offs, (n - 1) as nat) + spec_pair_edge(flow, offs, n - 1)
    }
}

/// The edges inside a block: into its first statement, and between consecutive
/// statements where the first one falls through.
pub open spec fn spec_block_edges(flow: SalsaFlowSummary, b: SalsaFlowBlockSummary) -> Seq<SalsaFlowEdgeSummary> {
    let offs = b.statement_offsets@;
    if offs.len() == 0 {
        seq![]
    } else {
        seq![edge(SalsaFlowEdgeKindSummary::BlockToStatement,
            SalsaFlowNodeRefSummary::Block(b.syntax_offset), SalsaFlowNodeRefSummary::Statement(offs[0]))]
            + spec_fallthrough_edges(flow, offs, (offs.len() - 1) as nat)
    }
}

pub open spec fn spec_blocks_edges(flow: SalsaFlowSummary, n: nat) -> Seq<SalsaFlowEdgeSummary>
    decreases n,
{
    if n == 0 || n > flow.blocks@.len() {
        seq![]
    } else {
        spec_blocks_edges(flow, (n - 1) as nat) + spec_block_edges(flow, flow.blocks@[n - 1])
    }
}

pub open spec fn spec_merge_next_edge(
    merge: SalsaFlowNodeRefSummary,
    succ: Option<SalsaFlowNodeRefSummary>,
    kind: SalsaFlowEdgeKindSummary,
) -> Seq<SalsaFlowEdgeSummary> {
    match succ {
        Some(n) => seq![edge(kind, merge, n)],
        None => seq![],
    }
}

/// The edges of an `if` statement, in the order the query lists them (callers
/// read the list in order, so the order is part of the result): from its merge
/// node to the next statement where there is one, into its branch node, into the
/// first condition and along the condition chain, from the branch into each
/// clause block, and from each clause block to the merge where the statement has
/// a successor.
pub open spec fn spec_branch_statement_edges(flow: SalsaFlowSummary, s: SalsaFlowStatementSummary) -> Seq<SalsaFlowEdgeSummary> {
    let off = s.syntax_offset;
    let me = SalsaFlowNodeRefSummary::Statement(off);
    let merge = SalsaFlowNodeRefSummary::Merge(off);
    let succ = spec_successor(flow, s);
    let head = spec_merge_next_edge(merge, succ, SalsaFlowEdgeKindSummary::MergeToNext)
        + seq![edge(SalsaFlowEdgeKindSummary::StatementToBranch, me, SalsaFlowNodeRefSummary::Branch(off))];
    match spec_find_branch(flow, off) {
        None => head,
        Some(br) => {
            let cond_part = if br.clauses@.len() > 0 && br.clauses@[0].condition_node_offset.is_some() {
                seq![edge(SalsaFlowEdgeKindSummary::StatementToCondition, me,
                    SalsaFlowNodeRefSummary::Condition(br.clauses@[0].condition_node_offset.unwrap()))]
                    + spec_branch_condition_edges(flow, br, merge, br.clauses@.len())
            } else {
                seq![]
            };
            let offs = spec_clause_block_offsets(br.clauses@);
            let clause_part = spec_edges_to_blocks(SalsaFlowEdgeKindSummary::BranchToClause,
                SalsaFlowNodeRefSummary::Branch(off), offs);
            let merge_part = if succ.is_some() {
                spec_edges_from_blocks(SalsaFlowEdgeKindSummary::ClauseToMerge, offs, merge)
            } else {
                seq![]
            };
            head + cond_part + clause_part + merge_part
        },
    }
}

/// The edges of a loop statement, in the order the query lists them: from its
/// merge node to the next statement where there is one, into its loop node, into
/// its condition and on to the body or the merge (to the merge on a true
/// condition for `repeat`), into the body and from the body back to the
/// condition (or the loop node), and from the loop to the merge where the
/// statement has a successor.
pub open spec fn spec_loop_statement_edges(flow: SalsaFlowSummary, s: SalsaFlowStatementSummary) -> Seq<SalsaFlowEdgeSummary> {
    let off = s.syntax_offset;
    let me = SalsaFlowNodeRefSummary::Statement(off);
    let merge = SalsaFlowNodeRefSummary::Merge(off);
    let loop_node = SalsaFlowNodeRefSummary::Loop(off);
    let succ = spec_successor(flow, s);
    let head = spec_merge_next_edge(merge, succ, SalsaFlowEdgeKindSummary::MergeToNext)
        + seq![edge(SalsaFlowEdgeKindSummary::StatementToLoop, me, loop_node)];
    match spec_find_loop(flow, off) {
        None => head,
        Some(l) => {
            let is_repeat = l.kind == SalsaFlowLoopKindSummary::Repeat;
            let cond_part = match l.condition_node_offset {
                Some(c) => seq![edge(SalsaFlowEdgeKindSummary::StatementToCondition, me, SalsaFlowNodeRefSummary::Condition(c))]
                    + spec_condition_edges(flow, c,
                        if is_repeat { merge } else { loop_node },
                        if is_repeat { loop_node } else { merge }),
                None => seq![],
            };
            let body_part = match l.block_offset {
                Some(b) => seq![
                    edge(SalsaFlowEdgeKindSummary::LoopToBody, loop_node, SalsaFlowNodeRefSummary::Block(b)),
                    edge(SalsaFlowEdgeKindSummary::LoopContinue, SalsaFlowNodeRefSummary::Block(b),
                        match l.condition_node_offset {
                            Some(c) => SalsaFlowNodeRefSummary::Condition(c),
                            None => loop_node,
                        }),
                ],
                None => seq![],
            };
            let merge_part = if succ.is_some() {
                seq![edge(SalsaFlowEdgeKindSummary::LoopToMerge, loop_node, merge)]
            } else {
                seq![]
            };
            head + cond_part + body_part + merge_part
        },
    }
}

/// The edges of a `return`, `break` or `goto`: into its terminal node, on to its
/// target when it has one, and on to the unreachable code after it.
pub open spec fn spec_terminal_statement_edges(
    off: u32,
    terminal: SalsaFlowNodeRefSummary,
    target_kind: SalsaFlowEdgeKindSummary,
    target: Option<SalsaFlowNodeRefSummary>,
) -> Seq<SalsaFlowEdgeSummary> {
    seq![edge(SalsaFlowEdgeKindSummary::StatementToTerminal, SalsaFlowNodeRefSummary::Statement(off), terminal)]
        + match target {
            Some(t) => seq![edge(target_kind, terminal, t)],
            None => seq![],
        }
        + seq![edge(SalsaFlowEdgeKindSummary::TerminalToUnreachable, terminal, SalsaFlowNodeRefSummary::Unreachable(off))]
}

pub open spec fn spec_block_node(off: Option<u32>) -> Option<SalsaFlowNodeRefSummary> {
    match off {
        Some(o) => Some(SalsaFlowNodeRefSummary::Block(o)),
        None => None,
    }
}

pub open spec fn spec_return_target(flow: SalsaFlowSummary, off: u32) -> Option<SalsaFlowNodeRefSummary> {
    match spec_find_return(flow, off) {
        Some(r) => spec_block_node(spec_return_link(flow, r).exit_root_block_offset),
        None => None,
    }
}

pub open spec fn spec_break_target(flow: SalsaFlowSummary, off: u32) -> Option<SalsaFlowNodeRefSummary> {
    match spec_find_break(flow, off) {
        Some(b) => spec_block_node(spec_break_link(flow, b).exit_block_offset),
        None => None,
    }
}

pub open spec fn spec_goto_target(flow: SalsaFlowSummary, off: u32) -> Option<SalsaFlowNodeRefSummary> {
    match spec_find_goto(flow, off) {
        Some(g) => match spec_goto_link(flow, g).target_label_offset {
            Some(lo) => Some(SalsaFlowNodeRefSummary::Label(lo)),
            None => None,
        },
        None => None,
    }
}

/// The edges that start at a statement, by its kind.
pub open spec fn spec_statement_edges(flow: SalsaFlowSummary, s: SalsaFlowStatementSummary) -> Seq<SalsaFlowEdgeSummary> {
    let off = s.syntax_offset;
    let me = SalsaFlowNodeRefSummary::Statement(off);
    match s.kind {
        SalsaFlowStatementKindSummary::Linear => seq![],
        SalsaFlowStatementKindSummary::Do => match spec_find_owned_block(flow, SalsaFlowBlockOwnerKindSummary::DoStat, off) {
            Some(b) => seq![edge(SalsaFlowEdgeKindSummary::StatementToBlock, me, SalsaFlowNodeRefSummary::Block(b.syntax_offset))],
            None => seq![],
        },
        SalsaFlowStatementKindSummary::Branch => spec_branch_statement_edges(flow, s),
        SalsaFlowStatementKindSummary::Loop => spec_loop_statement_edges(flow, s),
        SalsaFlowStatementKindSummary::Return => spec_terminal_statement_edges(off,
            SalsaFlowNodeRefSummary::Return(off), SalsaFlowEdgeKindSummary::TerminalToTarget, spec_return_target(flow, off)),
        SalsaFlowStatementKindSummary::Break => spec_terminal_statement_edges(off,
            SalsaFlowNodeRefSummary::Break(off), SalsaFlowEdgeKindSummary::TerminalToTarget, spec_break_target(flow, off)),
        SalsaFlowStatementKindSummary::Goto => spec_terminal_statement_edges(off,
            SalsaFlowNodeRefSummary::Goto(off), SalsaFlowEdgeKindSummary::GotoToLabel, spec_goto_target(flow, off)),
        SalsaFlowStatementKindSummary::Label =>
            seq![edge(SalsaFlowEdgeKindSummary::StatementToLabel, me, SalsaFlowNodeRefSummary::Label(off))]
                + spec_merge_next_edge(SalsaFlowNodeRefSummary::Label(off), spec_successor(flow, s), SalsaFlowEdgeKindSummary::LabelToNext),
    }
}

pub open spec fn spec_statements_edges(flow: SalsaFlowSummary, n: nat) -> Seq<SalsaFlowEdgeSummary>
    decreases n,
{
    if n == 0 || n > flow.statements@.len() {
        seq![]
    } else {
        spec_statements_edges(flow, (n - 1) as nat) + spec_statement_edges(flow, flow.statements@[n - 1])
    }
}

/// What the query summary of a flow summary holds.
pub open spec fn spec_flow_query(flow: SalsaFlowSummary, q: SalsaFlowQuerySummary) -> bool {
    &&& q.root_block_offsets@ == spec_root_block_offsets(flow.blocks@)
    &&& q.branch_links@.len() == flow.branches@.len()
    &&& forall|i: int| 0 <= i < flow.branches@.len() ==> spec_branch_link(flow, #[trigger] flow.branches@[i], q.branch_links@[i])
    &&& q.loop_links@ == Seq::new(flow.loops@.len(), |i: int| spec_loop_link(flow, flow.loops@[i]))
    &&& q.return_links@ == Seq::new(flow.returns@.len(), |i: int| spec_return_link(flow, flow.returns@[i]))
    &&& q.break_links@ == Seq::new(flow.breaks@.len(), |i: int| spec_break_link(flow, flow.breaks@[i]))
    &&& q.goto_links@ == Seq::new(flow.gotos@.len(), |i: int| spec_goto_link(flow, flow.gotos@[i]))
    &&& q.terminal_edges@ == Seq::new(flow.returns@.len(), |i: int| spec_return_terminal(flow, flow.returns@[i]))
        + Seq::new(flow.breaks@.len(), |i: int| spec_break_terminal(flow, flow.breaks@[i]))
        + Seq::new(flow.gotos@.len(), |i: int| spec_goto_terminal(flow, flow.gotos@[i]))
    &&& q.edges@ == spec_blocks_edges(flow, flow.blocks@.len()) + spec_statements_edges(flow, flow.statements@.len())
}

} // verus!

verus! {

pub proof fn lemma_position_bounds(s: Seq<u32>, x: u32)
    ensures
        -1 <= spec_position(s, x) < s.len(),
        spec_position(s, x) >= 0 ==> s[spec_position(s, x)] == x,
    decreases s.len(),
{
    if s.len() > 0 {
        lemma_position_bounds(s.drop_last(), x);
    }
}

pub proof fn lemma_position_prefix(s: Seq<u32>, x: u32, n: int)
    requires
        0 <= n <= s.len(),
        spec_position(s.take(n), x) >= 0,
    ensures
        spec_position(s, x) == spec_position(s.take(n), x),
    decreases s.len() - n,
{
    if n < s.len() {
        assert(s.take(n + 1).drop_last() =~= s.take(n));
        lemma_position_prefix(s, x, n + 1);
    } else {
        assert(s.take(n) =~= s);
    }
}

/// The index of the first occurrence of `x` in `s`.
pub fn position_of(s: &Vec<u32>, x: u32) -> (r: Option<usize>)
    ensures
        match r {
            Some(i) => i as int == spec_position(s@, x) && i < s@.len(),
            None => spec_position(s@, x) == -1,
        },
{
    let mut i: usize = 0;
    while i < s.len()
        invariant
            i <= s@.len(),
            spec_position(s@.take(i as int), x) == -1,
        decreases s@.len() - i,
    {
        assert(s@.take(i + 1).drop_last() =~= s@.take(i as int));
        if s[i] == x {
            proof { lemma_position_prefix(s@, x, i + 1); }
            return Some(i);
        }
        i = i + 1;
    }
    assert(s@.take(i as int) =~= s@);
    None
}

/// Finds the successor of a statement, passing through at most `fuel` blocks.
pub fn statement_successor_target(flow: &SalsaFlowSummary, s: SalsaFlowStatementSummary, fuel: usize) -> (r: Option<SalsaFlowNodeRefSummary>)
    ensures
        r == successor_fuel(*flow, s, fuel as nat),
    decreases fuel, 1nat,
{
    let block = match find_block(flow, s.block_offset) {
        None => { return None; }
        Some(b) => b,
    };
    proof { lemma_position_bounds(block.statement_offsets@, s.syntax_offset); }
    match position_of(&block.statement_offsets, s.syntax_offset) {
        None => None,
        Some(i) => {
            if i < block.statement_offsets.len() - 1 {
                Some(SalsaFlowNodeRefSummary::Statement(block.statement_offsets[i + 1]))
            } else {
                block_completion_target(flow, block.syntax_offset, fuel)
            }
        },
    }
}

/// Finds where control goes when the block at `off` completes, passing through at
/// most `fuel` blocks.
pub fn block_completion_target(flow: &SalsaFlowSummary, off: u32, fuel: usize) -> (r: Option<SalsaFlowNodeRefSummary>)
    ensures
        r == completion_fuel(*flow, off, fuel as nat),
    decreases fuel, 0nat,
{
    if fuel == 0 {
        return None;
    }
    let block = match find_block(flow, off) {
        None => { return None; }
        Some(b) => b,
    };
    match block.owner_kind {
        SalsaFlowBlockOwnerKindSummary::Chunk
        | SalsaFlowBlockOwnerKindSummary::FuncStat
        | SalsaFlowBlockOwnerKindSummary::LocalFuncStat
        | SalsaFlowBlockOwnerKindSummary::ClosureExpr => None,
        SalsaFlowBlockOwnerKindSummary::WhileStat
        | SalsaFlowBlockOwnerKindSummary::RepeatStat
        | SalsaFlowBlockOwnerKindSummary::ForStat
        | SalsaFlowBlockOwnerKindSummary::ForRangeStat => match find_loop(flow, block.owner_offset) {
            Some(l) => match l.condition_node_offset {
                Some(c) => Some(SalsaFlowNodeRefSummary::Condition(c)),
                None => Some(SalsaFlowNodeRefSummary::Loop(block.owner_offset)),
            },
            None => Some(SalsaFlowNodeRefSummary::Loop(block.owner_offset)),
        },
        SalsaFlowBlockOwnerKindSummary::IfStat | SalsaFlowBlockOwnerKindSummary::DoStat => {
            match find_statement(flow, block.owner_offset) {
                None => None,
                Some(st) => statement_successor_target(flow, st, fuel - 1),
            }
        },
        SalsaFlowBlockOwnerKindSummary::ElseIfClause | SalsaFlowBlockOwnerKindSummary::ElseClause => {
            match branch_offset_of_clause(flow, block.owner_offset) {
                None => None,
                Some(br) => match find_statement(flow, br) {
                    None => None,
                    Some(st) => statement_successor_target(flow, st, fuel - 1),
                },
            }
        },
        SalsaFlowBlockOwnerKindSummary::Other => match block.parent_block_offset {
            None => None,
            Some(p) => block_completion_target(flow, p, fuel - 1),
        },
    }
}

/// Appends the edges of the condition at `c` to `edges`.
pub fn append_condition_edges(
    flow: &SalsaFlowSummary,
    c: u32,
    t: SalsaFlowNodeRefSummary,
    f: SalsaFlowNodeRefSummary,
    fuel: usize,
    edges: &mut Vec<SalsaFlowEdgeSummary>,
)
    ensures
        final(edges)@ == old(edges)@ + condition_edges_fuel(*flow, c, t, f, fuel as nat),
    decreases fuel,
{
    if fuel == 0 {
        assert(old(edges)@ + seq![] =~= old(edges)@);
        return;
    }
    let me = SalsaFlowNodeRefSummary::Condition(c);
    let cond = match find_condition(flow, c) {
        None => {
            assert(old(edges)@ + seq![] =~= old(edges)@);
            return;
        },
        Some(cond) => cond,
    };
    match cond.kind {
        SalsaFlowConditionKindSummary::Expr => {
            edges.push(SalsaFlowEdgeSummary { kind: SalsaFlowEdgeKindSummary::ConditionTrue, from: me, to: t });
            edges.push(SalsaFlowEdgeSummary { kind: SalsaFlowEdgeKindSummary::ConditionFalse, from: me, to: f });
            assert(edges@ =~= old(edges)@ + condition_edges_fuel(*flow, c, t, f, fuel as nat));
        },
        SalsaFlowConditionKindSummary::And | SalsaFlowConditionKindSummary::Or => {
            let (l, r) = match (cond.left_condition_offset, cond.right_condition_offset) {
                (Some(l), Some(r)) => (l, r),
                _ => {
                    assert(old(edges)@ + seq![] =~= old(edges)@);
                    return;
                },
            };
            edges.push(SalsaFlowEdgeSummary {
                kind: SalsaFlowEdgeKindSummary::ConditionEnter,
                from: me,
                to: SalsaFlowNodeRefSummary::Condition(l),
            });
            let ghost after_enter = edges@;
            if cond.kind == SalsaFlowConditionKindSummary::And {
                append_condition_edges(flow, l, SalsaFlowNodeRefSummary::Condition(r), f, fuel - 1, edges);
            } else {
                append_condition_edges(flow, l, t, SalsaFlowNodeRefSummary::Condition(r), fuel - 1, edges);
            }
            append_condition_edges(flow, r, t, f, fuel - 1, edges);
            assert(edges@ =~= old(edges)@ + condition_edges_fuel(*flow, c, t, f, fuel as nat));
        },
    }
}

} // verus!

verus! {

fn parent_block(flow: &SalsaFlowSummary, off: Option<u32>) -> (r: Option<u32>)
    ensures
        r == spec_parent_block(*flow, off),
{
    match off {
        None => None,
        Some(o) => match find_block(flow, o) {
            None => None,
            Some(b) => b.parent_block_offset,
        },
    }
}

fn region_root_of_opt(flow: &SalsaFlowSummary, off: Option<u32>) -> (r: Option<u32>)
    ensures
        r == spec_region_root_of_opt(*flow, off),
{
    match off {
        None => None,
        Some(o) => region_root_of(flow, o),
    }
}

/// The blocks of the clauses of a branch, in clause order.
pub fn clause_block_offsets(clauses: &Vec<SalsaFlowBranchClauseSummary>) -> (r: Vec<u32>)
    ensures
        r@ == spec_clause_block_offsets(clauses@),
{
    let mut r: Vec<u32> = Vec::new();
    let mut i: usize = 0;
    while i < clauses.len()
        invariant
            i <= clauses@.len(),
            r@ == spec_clause_block_offsets(clauses@.take(i as int)),
        decreases clauses@.len() - i,
    {
        assert(clauses@.take(i + 1).drop_last() =~= clauses@.take(i as int));
        if let Some(b) = clauses[i].block_offset {
            r.push(b);
        }
        i = i + 1;
    }
    assert(clauses@.take(i as int) =~= clauses@);
    r
}

fn build_branch_link(flow: &SalsaFlowSummary, branch: &SalsaFlowBranchSummary) -> (r: SalsaFlowBranchLinkSummary)
    ensures
        spec_branch_link(*flow, *branch, r),
{
    let offs = clause_block_offsets(&branch.clauses);
    let entry = if offs.len() > 0 { parent_block(flow, Some(offs[0])) } else { None };
    SalsaFlowBranchLinkSummary {
        branch_offset: branch.syntax_offset,
        entry_block_offset: entry,
        clause_block_offsets: offs,
        exit_block_offset: entry,
    }
}

fn build_loop_link(flow: &SalsaFlowSummary, l: &SalsaFlowLoopSummary) -> (r: SalsaFlowLoopLinkSummary)
    ensures
        r == spec_loop_link(*flow, *l),
{
    SalsaFlowLoopLinkSummary {
        loop_offset: l.syntax_offset,
        entry_block_offset: parent_block(flow, l.block_offset),
        body_block_offset: l.block_offset,
        continue_block_offset: l.block_offset,
        exit_block_offset: parent_block(flow, l.block_offset),
    }
}

fn build_return_link(flow: &SalsaFlowSummary, r: &SalsaFlowJumpSummary) -> (link: SalsaFlowReturnLinkSummary)
    ensures
        link == spec_return_link(*flow, *r),
{
    SalsaFlowReturnLinkSummary {
        return_offset: r.syntax_offset,
        block_offset: r.block_offset,
        exit_root_block_offset: region_root_of_opt(flow, r.block_offset),
    }
}

fn build_break_link(flow: &SalsaFlowSummary, b: &SalsaFlowJumpSummary) -> (link: SalsaFlowBreakLinkSummary)
    ensures
        link == spec_break_link(*flow, *b),
{
    let enclosing = match b.block_offset {
        None => None,
        Some(o) => enclosing_loop_of(flow, o),
    };
    let exit = match enclosing {
        None => None,
        Some(lo) => match find_loop(flow, lo) {
            None => None,
            Some(l) => parent_block(flow, l.block_offset),
        },
    };
    SalsaFlowBreakLinkSummary {
        break_offset: b.syntax_offset,
        block_offset: b.block_offset,
        enclosing_loop_offset: enclosing,
        exit_block_offset: exit,
    }
}

fn build_goto_link(flow: &SalsaFlowSummary, g: &SalsaFlowGotoSummary) -> (link: SalsaFlowGotoLinkSummary)
    ensures
        link == spec_goto_link(*flow, *g),
{
    let label = match g.block_offset {
        None => None,
        Some(o) => resolve_goto_target_label(flow, g, o),
    };
    SalsaFlowGotoLinkSummary {
        goto_offset: g.syntax_offset,
        block_offset: g.block_offset,
        target_label_offset: match label { Some(l) => Some(l.syntax_offset), None => None },
        target_block_offset: match label { Some(l) => l.block_offset, None => None },
    }
}

fn find_return(flow: &SalsaFlowSummary, off: u32) -> (r: Option<SalsaFlowJumpSummary>)
    ensures
        r == spec_find_return(*flow, off),
{
    proof { lemma_last_index_with_key(flow.returns@, off); }
    match find_last_index(&flow.returns, off) {
        Some(i) => Some(flow.returns[i]),
        None => None,
    }
}

fn find_break(flow: &SalsaFlowSummary, off: u32) -> (r: Option<SalsaFlowJumpSummary>)
    ensures
        r == spec_find_break(*flow, off),
{
    proof { lemma_last_index_with_key(flow.breaks@, off); }
    match find_last_index(&flow.breaks, off) {
        Some(i) => Some(flow.breaks[i]),
        None => None,
    }
}

fn find_goto<'a>(flow: &'a SalsaFlowSummary, off: u32) -> (r: Option<&'a SalsaFlowGotoSummary>)
    ensures
        match r {
            Some(g) => spec_find_goto(*flow, off) == Some(*g),
            None => spec_find_goto(*flow, off).is_none(),
        },
{
    proof { lemma_last_index_with_key(flow.gotos@, off); }
    match find_last_index(&flow.gotos, off) {
        Some(i) => Some(&flow.gotos[i]),
        None => None,
    }
}

fn push_edges_to_blocks(
    kind: SalsaFlowEdgeKindSummary,
    from: SalsaFlowNodeRefSummary,
    offs: &Vec<u32>,
    edges: &mut Vec<SalsaFlowEdgeSummary>,
)
    ensures
        final(edges)@ == old(edges)@ + spec_edges_to_blocks(kind, from, offs@),
{
    let mut i: usize = 0;
    while i < offs.len()
        invariant
            i <= offs@.len(),
            edges@ == old(edges)@ + spec_edges_to_blocks(kind, from, offs@.take(i as int)),
        decreases offs@.len() - i,
    {
        assert(offs@.take(i + 1).drop_last() =~= offs@.take(i as int));
        edges.push(SalsaFlowEdgeSummary { kind, from, to: SalsaFlowNodeRefSummary::Block(offs[i]) });
        assert(edges@ =~= old(edges)@ + spec_edges_to_blocks(kind, from, offs@.take(i + 1)));
        i = i + 1;
    }
    assert(offs@.take(i as int) =~= offs@);
}

fn push_edges_from_blocks(
    kind: SalsaFlowEdgeKindSummary,
    offs: &Vec<u32>,
    to: SalsaFlowNodeRefSummary,
    edges: &mut Vec<SalsaFlowEdgeSummary>,
)
    ensures
        final(edges)@ == old(edges)@ + spec_edges_from_blocks(kind, offs@, to),
{
    let mut i: usize = 0;
    while i < offs.len()
        invariant
            i <= offs@.len(),
            edges@ == old(edges)@ + spec_edges_from_blocks(kind, offs@.take(i as int), to),
        decreases offs@.len() - i,
    {
        assert(offs@.take(i + 1).drop_last() =~= offs@.take(i as int));
        edges.push(SalsaFlowEdgeSummary { kind, from: SalsaFlowNodeRefSummary::Block(offs[i]), to });
        assert(edges@ =~= old(edges)@ + spec_edges_from_blocks(kind, offs@.take(i + 1), to));
        i = i + 1;
    }
    assert(offs@.take(i as int) =~= offs@);
}

fn clause_false_target(
    branch: &SalsaFlowBranchSummary,
    merge: SalsaFlowNodeRefSummary,
    i: usize,
) -> (r: SalsaFlowNodeRefSummary)
    requires
        i < branch.clauses@.len(),
    ensures
        r == spec_clause_false_target(*branch, merge, i as int),
{
    if i < branch.clauses.len() - 1 {
        let next = &branch.clauses[i + 1];
        match next.condition_node_offset {
            Some(nc) => SalsaFlowNodeRefSummary::Condition(nc),
            None => match next.block_offset {
                Some(nb) => SalsaFlowNodeRefSummary::Block(nb),
                None => merge,
            },
        }
    } else {
        merge
    }
}

fn push_branch_condition_edges(
    flow: &SalsaFlowSummary,
    branch: &SalsaFlowBranchSummary,
    merge: SalsaFlowNodeRefSummary,
    edges: &mut Vec<SalsaFlowEdgeSummary>,
)
    ensures
        final(edges)@ == old(edges)@ + spec_branch_condition_edges(*flow, *branch, merge, branch.clauses@.len()),
{
    let mut i: usize = 0;
    assert(old(edges)@ + seq![] =~= old(edges)@);
    while i < branch.clauses.len()
        invariant
            i <= branch.clauses@.len(),
            edges@ == old(edges)@ + spec_branch_condition_edges(*flow, *branch, merge, i as nat),
        decreases branch.clauses@.len() - i,
    {
        let ghost before = edges@;
        let clause = &branch.clauses[i];
        match clause.condition_node_offset {
            None => {
                assert(edges@ =~= old(edges)@ + spec_branch_condition_edges(*flow, *branch, merge, (i + 1) as nat));
            },
            Some(c) => {
                let t = match clause.block_offset {
                    Some(b) => SalsaFlowNodeRefSummary::Block(b),
                    None => merge,
                };
                let f = clause_false_target(branch, merge, i);
                append_condition_edges(flow, c, t, f, flow.conditions.len(), edges);
                assert(edges@ =~= old(edges)@ + spec_branch_condition_edges(*flow, *branch, merge, (i + 1) as nat));
            },
        }
        i = i + 1;
    }
}

} // verus!

verus! {

fn push_branch_statement_edges(flow: &SalsaFlowSummary, s: SalsaFlowStatementSummary, edges: &mut Vec<SalsaFlowEdgeSummary>)
    ensures
        final(edges)@ == old(edges)@ + spec_branch_statement_edges(*flow, s),
{
    let off = s.syntax_offset;
    let me = SalsaFlowNodeRefSummary::Statement(off);
    let merge = SalsaFlowNodeRefSummary::Merge(off);
    let succ = statement_successor_target(flow, s, flow.blocks.len());
    if let Some(n) = succ {
        edges.push(SalsaFlowEdgeSummary { kind: SalsaFlowEdgeKindSummary::MergeToNext, from: merge, to: n });
    }
    edges.push(SalsaFlowEdgeSummary {
        kind: SalsaFlowEdgeKindSummary::StatementToBranch,
        from: me,
        to: SalsaFlowNodeRefSummary::Branch(off),
    });
    let ghost after_head = edges@;
    assert(after_head =~= old(edges)@ + spec_merge_next_edge(merge, succ, SalsaFlowEdgeKindSummary::MergeToNext)
        + seq![edge(SalsaFlowEdgeKindSummary::StatementToBranch, me, SalsaFlowNodeRefSummary::Branch(off))]);
    match find_branch(flow, off) {
        None => {},
        Some(br) => {
            if br.clauses.len() > 0 && br.clauses[0].condition_node_offset.is_some() {
                let c = br.clauses[0].condition_node_offset.unwrap();
                edges.push(SalsaFlowEdgeSummary {
                    kind: SalsaFlowEdgeKindSummary::StatementToCondition,
                    from: me,
                    to: SalsaFlowNodeRefSummary::Condition(c),
                });
                push_branch_condition_edges(flow, br, merge, edges);
            }
            let ghost after_cond = edges@;
            let offs = clause_block_offsets(&br.clauses);
            push_edges_to_blocks(SalsaFlowEdgeKindSummary::BranchToClause, SalsaFlowNodeRefSummary::Branch(off), &offs, edges);
            let ghost after_clause = edges@;
            if succ.is_some() {
                push_edges_from_blocks(SalsaFlowEdgeKindSummary::ClauseToMerge, &offs, merge, edges);
            }
            assert(edges@ =~= old(edges)@ + spec_branch_statement_edges(*flow, s));
        },
    }
}

fn push_loop_statement_edges(flow: &SalsaFlowSummary, s: SalsaFlowStatementSummary, edges: &mut Vec<SalsaFlowEdgeSummary>)
    ensures
        final(edges)@ == old(edges)@ + spec_loop_statement_edges(*flow, s),
{
    let off = s.syntax_offset;
    let me = SalsaFlowNodeRefSummary::Statement(off);
    let merge = SalsaFlowNodeRefSummary::Merge(off);
    let loop_node = SalsaFlowNodeRefSummary::Loop(off);
    let succ = statement_successor_target(flow, s, flow.blocks.len());
    if let Some(n) = succ {
        edges.push(SalsaFlowEdgeSummary { kind: SalsaFlowEdgeKindSummary::MergeToNext, from: merge, to: n });
    }
    edges.push(SalsaFlowEdgeSummary { kind: SalsaFlowEdgeKindSummary::StatementToLoop, from: me, to: loop_node });
    let ghost after_head = edges@;
    assert(after_head =~= old(edges)@ + spec_merge_next_edge(merge, succ, SalsaFlowEdgeKindSummary::MergeToNext)
        + seq![edge(SalsaFlowEdgeKindSummary::StatementToLoop, me, loop_node)]);
    match find_loop(flow, off) {
        None => {},
        Some(l) => {
            let is_repeat = l.kind == SalsaFlowLoopKindSummary::Repeat;
            if let Some(c) = l.condition_node_offset {
                edges.push(SalsaFlowEdgeSummary {
                    kind: SalsaFlowEdgeKindSummary::StatementToCondition,
                    from: me,
                    to: SalsaFlowNodeRefSummary::Condition(c),
                });
                let t = if is_repeat { merge } else { loop_node };
                let f = if is_repeat { loop_node } else { merge };
                append_condition_edges(flow, c, t, f, flow.conditions.len(), edges);
            }
            let ghost after_cond = edges@;
            if let Some(b) = l.block_offset {
                edges.push(SalsaFlowEdgeSummary {
                    kind: SalsaFlowEdgeKindSummary::LoopToBody,
                    from: loop_node,
                    to: SalsaFlowNodeRefSummary::Block(b),
                });
                let target = match l.condition_node_offset {
                    Some(c) => SalsaFlowNodeRefSummary::Condition(c),
                    None => loop_node,
                };
                edges.push(SalsaFlowEdgeSummary {
                    kind: SalsaFlowEdgeKindSummary::LoopContinue,
                    from: SalsaFlowNodeRefSummary::Block(b),
                    to: target,
                });
            }
            if succ.is_some() {
                edges.push(SalsaFlowEdgeSummary { kind: SalsaFlowEdgeKindSummary::LoopToMerge, from: loop_node, to: merge });
            }
            assert(edges@ =~= old(edges)@ + spec_loop_statement_edges(*flow, s));
        },
    }
}

fn push_terminal_statement_edges(
    off: u32,
    terminal: SalsaFlowNodeRefSummary,
    target_kind: SalsaFlowEdgeKindSummary,
    target: Option<SalsaFlowNodeRefSummary>,
    edges: &mut Vec<SalsaFlowEdgeSummary>,
)
    ensures
        final(edges)@ == old(edges)@ + spec_terminal_statement_edges(off, terminal, target_kind, target),
{
    edges.push(SalsaFlowEdgeSummary {
        kind: SalsaFlowEdgeKindSummary::StatementToTerminal,
        from: SalsaFlowNodeRefSummary::Statement(off),
        to: terminal,
    });
    if let Some(t) = target {
        edges.push(SalsaFlowEdgeSummary { kind: target_kind, from: terminal, to: t });
    }
    edges.push(SalsaFlowEdgeSummary {
        kind: SalsaFlowEdgeKindSummary::TerminalToUnreachable,
        from: terminal,
        to: SalsaFlowNodeRefSummary::Unreachable(off),
    });
    assert(edges@ =~= old(edges)@ + spec_terminal_statement_edges(off, terminal, target_kind, target));
}

fn block_node(off: Option<u32>) -> (r: Option<SalsaFlowNodeRefSummary>)
    ensures
        r == spec_block_node(off),
{
    match off {
        Some(o) => Some(SalsaFlowNodeRefSummary::Block(o)),
        None => None,
    }
}

fn push_statement_edges(flow: &SalsaFlowSummary, s: SalsaFlowStatementSummary, edges: &mut Vec<SalsaFlowEdgeSummary>)
    ensures
        final(edges)@ == old(edges)@ + spec_statement_edges(*flow, s),
{
    let off = s.syntax_offset;
    let me = SalsaFlowNodeRefSummary::Statement(off);
    match s.kind {
        SalsaFlowStatementKindSummary::Linear => {
            assert(old(edges)@ + seq![] =~= old(edges)@);
        },
        SalsaFlowStatementKindSummary::Do => {
            match find_owned_block(flow, SalsaFlowBlockOwnerKindSummary::DoStat, off) {
                Some(b) => {
                    edges.push(SalsaFlowEdgeSummary {
                        kind: SalsaFlowEdgeKindSummary::StatementToBlock,
                        from: me,
                        to: SalsaFlowNodeRefSummary::Block(b.syntax_offset),
                    });
                    assert(edges@ =~= old(edges)@ + spec_statement_edges(*flow, s));
                },
                None => {
                    assert(old(edges)@ + seq![] =~= old(edges)@);
                },
            }
        },
        SalsaFlowStatementKindSummary::Branch => push_branch_statement_edges(flow, s, edges),
        SalsaFlowStatementKindSummary::Loop => push_loop_statement_edges(flow, s, edges),
        SalsaFlowStatementKindSummary::Return => {
            let target = match find_return(flow, off) {
                Some(r) => block_node(build_return_link(flow, &r).exit_root_block_offset),
                None => None,
            };
            push_terminal_statement_edges(off, SalsaFlowNodeRefSummary::Return(off),
                SalsaFlowEdgeKindSummary::TerminalToTarget, target, edges);
        },
        SalsaFlowStatementKindSummary::Break => {
            let target = match find_break(flow, off) {
                Some(b) => block_node(build_break_link(flow, &b).exit_block_offset),
                None => None,
            };
            push_terminal_statement_edges(off, SalsaFlowNodeRefSummary::Break(off),
                SalsaFlowEdgeKindSummary::TerminalToTarget, target, edges);
        },
        SalsaFlowStatementKindSummary::Goto => {
            let target = match find_goto(flow, off) {
                Some(g) => match build_goto_link(flow, g).target_label_offset {
                    Some(lo) => Some(SalsaFlowNodeRefSummary::Label(lo)),
                    None => None,
                },
                None => None,
            };
            push_terminal_statement_edges(off, SalsaFlowNodeRefSummary::Goto(off),
                SalsaFlowEdgeKindSummary::GotoToLabel, target, edges);
        },
        SalsaFlowStatementKindSummary::Label => {
            let label = SalsaFlowNodeRefSummary::Label(off);
            edges.push(SalsaFlowEdgeSummary { kind: SalsaFlowEdgeKindSummary::StatementToLabel, from: me, to: label });
            let succ = statement_successor_target(flow, s, flow.blocks.len());
            if let Some(n) = succ {
                edges.push(SalsaFlowEdgeSummary { kind: SalsaFlowEdgeKindSummary::LabelToNext, from: label, to: n });
            }
            assert(edges@ =~= old(edges)@ + spec_statement_edges(*flow, s));
        },
    }
}

fn push_block_edges(flow: &SalsaFlowSummary, b: &SalsaFlowBlockSummary, edges: &mut Vec<SalsaFlowEdgeSummary>)
    ensures
        final(edges)@ == old(edges)@ + spec_block_edges(*flow, *b),
{
    let offs = &b.statement_offsets;
    if offs.len() == 0 {
        assert(old(edges)@ + seq![] =~= old(edges)@);
        return;
    }
    edges.push(SalsaFlowEdgeSummary {
        kind: SalsaFlowEdgeKindSummary::BlockToStatement,
        from: SalsaFlowNodeRefSummary::Block(b.syntax_offset),
        to: SalsaFlowNodeRefSummary::Statement(offs[0]),
    });
    let ghost start = edges@;
    let mut k: usize = 0;
    assert(start + seq![] =~= start);
    while k < offs.len() - 1
        invariant
            offs == &b.statement_offsets,
            offs@.len() > 0,
            k + 1 <= offs@.len(),
            edges@ == start + spec_fallthrough_edges(*flow, offs@, k as nat),
        decreases offs@.len() - k,
    {
        match find_statement(flow, offs[k]) {
            Some(st) => {
                if st.kind == SalsaFlowStatementKindSummary::Linear || st.kind == SalsaFlowStatementKindSummary::Do {
                    edges.push(SalsaFlowEdgeSummary {
                        kind: SalsaFlowEdgeKindSummary::StatementFallthrough,
                        from: SalsaFlowNodeRefSummary::Statement(offs[k]),
                        to: SalsaFlowNodeRefSummary::Statement(offs[k + 1]),
                    });
                }
            },
            None => {},
        }
        assert(edges@ =~= start + spec_fallthrough_edges(*flow, offs@, (k + 1) as nat));
        k = k + 1;
    }
    assert(edges@ =~= old(edges)@ + spec_block_edges(*flow, *b));
}

} // verus!

verus! {

/// Builds the flow graph of a chunk from its flow summary: the region roots, the
/// links of branches, loops and jumps, the terminal edges and every edge between
/// flow nodes.
pub fn build_flow_query_summary(flow: &SalsaFlowSummary) -> (q: SalsaFlowQuerySummary)
    ensures
        spec_flow_query(*flow, q),
{
    let mut root_block_offsets: Vec<u32> = Vec::new();
    let mut i: usize = 0;
    while i < flow.blocks.len()
        invariant
            i <= flow.blocks@.len(),
            root_block_offsets@ == spec_root_block_offsets(flow.blocks@.take(i as int)),
        decreases flow.blocks@.len() - i,
    {
        assert(flow.blocks@.take(i + 1).drop_last() =~= flow.blocks@.take(i as int));
        if is_flow_region_root(&flow.blocks[i]) {
            root_block_offsets.push(flow.blocks[i].syntax_offset);
        }
        i = i + 1;
    }
    assert(flow.blocks@.take(i as int) =~= flow.blocks@);

    let mut branch_links: Vec<SalsaFlowBranchLinkSummary> = Vec::new();
    let mut i: usize = 0;
    while i < flow.branches.len()
        invariant
            i <= flow.branches@.len(),
            branch_links@.len() == i,
            forall|k: int| 0 <= k < i ==> spec_branch_link(*flow, #[trigger] flow.branches@[k], branch_links@[k]),
        decreases flow.branches@.len() - i,
    {
        branch_links.push(build_branch_link(flow, &flow.branches[i]));
        i = i + 1;
    }

    let mut loop_links: Vec<SalsaFlowLoopLinkSummary> = Vec::new();
    let mut i: usize = 0;
    while i < flow.loops.len()
        invariant
            i <= flow.loops@.len(),
            loop_links@ =~= Seq::new(i as nat, |k: int| spec_loop_link(*flow, flow.loops@[k])),
        decreases flow.loops@.len() - i,
    {
        loop_links.push(build_loop_link(flow, &flow.loops[i]));
        i = i + 1;
    }

    let mut return_links: Vec<SalsaFlowReturnLinkSummary> = Vec::new();
    let mut terminal_edges: Vec<SalsaFlowTerminalEdgeSummary> = Vec::new();
    let mut i: usize = 0;
    while i < flow.returns.len()
        invariant
            i <= flow.returns@.len(),
            return_links@ =~= Seq::new(i as nat, |k: int| spec_return_link(*flow, flow.returns@[k])),
            terminal_edges@ =~= Seq::new(i as nat, |k: int| spec_return_terminal(*flow, flow.returns@[k])),
        decreases flow.returns@.len() - i,
    {
        let link = build_return_link(flow, &flow.returns[i]);
        return_links.push(link);
        terminal_edges.push(SalsaFlowTerminalEdgeSummary {
            kind: SalsaFlowTerminalEdgeKindSummary::Return,
            syntax_offset: link.return_offset,
            source_block_offset: link.block_offset,
            target_block_offset: link.exit_root_block_offset,
            target_label_offset: None,
            flow_region_root_offset: link.exit_root_block_offset,
        });
        i = i + 1;
    }
    let ghost after_returns = terminal_edges@;

    let mut break_links: Vec<SalsaFlowBreakLinkSummary> = Vec::new();
    let mut i: usize = 0;
    while i < flow.breaks.len()
        invariant
            i <= flow.breaks@.len(),
            break_links@ =~= Seq::new(i as nat, |k: int| spec_break_link(*flow, flow.breaks@[k])),
            terminal_edges@ =~= after_returns + Seq::new(i as nat, |k: int| spec_break_terminal(*flow, flow.breaks@[k])),
        decreases flow.breaks@.len() - i,
    {
        let link = build_break_link(flow, &flow.breaks[i]);
        break_links.push(link);
        terminal_edges.push(SalsaFlowTerminalEdgeSummary {
            kind: SalsaFlowTerminalEdgeKindSummary::Break,
            syntax_offset: link.break_offset,
            source_block_offset: link.block_offset,
            target_block_offset: link.exit_block_offset,
            target_label_offset: None,
            flow_region_root_offset: region_root_of_opt(flow, link.block_offset),
        });
        i = i + 1;
    }
    let ghost after_breaks = terminal_edges@;

    let mut goto_links: Vec<SalsaFlowGotoLinkSummary> = Vec::new();
    let mut i: usize = 0;
    while i < flow.gotos.len()
        invariant
            i <= flow.gotos@.len(),
            goto_links@ =~= Seq::new(i as nat, |k: int| spec_goto_link(*flow, flow.gotos@[k])),
            terminal_edges@ =~= after_breaks + Seq::new(i as nat, |k: int| spec_goto_terminal(*flow, flow.gotos@[k])),
        decreases flow.gotos@.len() - i,
    {
        let link = build_goto_link(flow, &flow.gotos[i]);
        goto_links.push(link);
        terminal_edges.push(SalsaFlowTerminalEdgeSummary {
            kind: SalsaFlowTerminalEdgeKindSummary::Goto,
            syntax_offset: link.goto_offset,
            source_block_offset: link.block_offset,
            target_block_offset: link.target_block_offset,
            target_label_offset: link.target_label_offset,
            flow_region_root_offset: region_root_of_opt(flow, link.block_offset),
        });
        i = i + 1;
    }

    let mut edges: Vec<SalsaFlowEdgeSummary> = Vec::new();
    let mut i: usize = 0;
    while i < flow.blocks.len()
        invariant
            i <= flow.blocks@.len(),
            edges@ == spec_blocks_edges(*flow, i as nat),
        decreases flow.blocks@.len() - i,
    {
        push_block_edges(flow, &flow.blocks[i], &mut edges);
        i = i + 1;
    }
    let ghost after_blocks = edges@;
    let mut i: usize = 0;
    assert(after_blocks + seq![] =~= after_blocks);
    while i < flow.statements.len()
        invariant
            i <= flow.statements@.len(),
            edges@ == after_blocks + spec_statements_edges(*flow, i as nat),
        decreases flow.statements@.len() - i,
    {
        push_statement_edges(flow, flow.statements[i], &mut edges);
        assert(edges@ =~= after_blocks + spec_statements_edges(*flow, (i + 1) as nat));
        i = i + 1;
    }

    SalsaFlowQuerySummary {
        root_block_offsets,
        branch_links,
        loop_links,
        return_links,
        break_links,
        goto_links,
        terminal_edges,
        edges,
    }
}

} // verus!
