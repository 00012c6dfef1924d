//! The control-flow summary of one Lua chunk: blocks, statements, conditions,
//! branches, loops and jumps, each identified by its syntax offset.
use vstd::prelude::*;

use crate::lookup::{Keyed, last_with_key, lemma_last_index_with_key, find_last_index};

verus! {

/// What kind of syntax owns a block.
#[derive(Clone, Copy, Debug, PartialEq, Eq, Structural)]
pub enum SalsaFlowBlockOwnerKindSummary {
    Chunk,
    FuncStat,
    LocalFuncStat,
    ClosureExpr,
    WhileStat,
    RepeatStat,
    ForStat,
    ForRangeStat,
    IfStat,
    DoStat,
    ElseIfClause,
    ElseClause,
    Other,
}

#[derive(Clone, Debug)]
pub struct SalsaFlowBlockSummary {
    pub syntax_offset: u32,
    pub parent_block_offset: Option<u32>,
    pub owner_kind: SalsaFlowBlockOwnerKindSummary,
    pub owner_offset: u32,
    pub statement_offsets: Vec<u32>,
}

#[derive(Clone, Copy, Debug, PartialEq, Eq, Structural)]
pub enum SalsaFlowStatementKindSummary {
    Linear,
    Do,
    Branch,
    Loop,
    Return,
    Break,
    Goto,
    Label,
}

#[derive(Clone, Copy, Debug)]
pub struct SalsaFlowStatementSummary {
    pub syntax_offset: u32,
    pub block_offset: u32,
    pub kind: SalsaFlowStatementKindSummary,
}

#[derive(Clone, Copy, Debug, PartialEq, Eq, Structural)]
pub enum SalsaFlowConditionKindSummary {
    Expr,
    And,
    Or,
}

#[derive(Clone, Copy, Debug)]
pub struct SalsaFlowConditionSummary {
    pub node_offset: u32,
    pub syntax_offset: u32,
    pub kind: SalsaFlowConditionKindSummary,
    pub left_condition_offset: Option<u32>,
    pub right_condition_offset: Option<u32>,
}

#[derive(Clone, Copy, Debug)]
pub struct SalsaFlowBranchClauseSummary {
    pub syntax_offset: u32,
    pub block_offset: Option<u32>,
    pub condition_node_offset: Option<u32>,
}

#[derive(Clone, Debug)]
pub struct SalsaFlowBranchSummary {
    pub syntax_offset: u32,
    pub clauses: Vec<SalsaFlowBranchClauseSummary>,
}

#[derive(Clone, Copy, Debug, PartialEq, Eq, Structural)]
pub enum SalsaFlowLoopKindSummary {
    While,
    Repeat,
    NumericFor,
    ForRange,
}

#[derive(Clone, Debug)]
pub struct SalsaFlowLoopSummary {
    pub syntax_offset: u32,
    pub kind: SalsaFlowLoopKindSummary,
    pub block_offset: Option<u32>,
    pub condition_node_offset: Option<u32>,
    pub iter_expr_offsets: Vec<u32>,
}

/// A `return` or a `break`.
#[derive(Clone, Copy, Debug)]
pub struct SalsaFlowJumpSummary {
    pub syntax_offset: u32,
    pub block_offset: Option<u32>,
}

#[derive(Clone, Debug)]
pub struct SalsaFlowGotoSummary {
    pub syntax_offset: u32,
    pub block_offset: Option<u32>,
    pub label_name: String,
}

#[derive(Clone, Debug)]
pub struct SalsaFlowLabelSummary {
    pub syntax_offset: u32,
    pub block_offset: Option<u32>,
    pub name: String,
}

#[derive(Clone, Debug)]
pub struct SalsaFlowSummary {
    pub blocks: Vec<SalsaFlowBlockSummary>,
    pub statements: Vec<SalsaFlowStatementSummary>,
    pub conditions: Vec<SalsaFlowConditionSummary>,
    pub branches: Vec<SalsaFlowBranchSummary>,
    pub loops: Vec<SalsaFlowLoopSummary>,
    pub returns: Vec<SalsaFlowJumpSummary>,
    pub breaks: Vec<SalsaFlowJumpSummary>,
    pub gotos: Vec<SalsaFlowGotoSummary>,
    pub labels: Vec<SalsaFlowLabelSummary>,
}

impl Keyed for SalsaFlowBlockSummary {
    open spec fn key(&self) -> u32 { self.syntax_offset }
    fn get_key(&self) -> (k: u32) { self.syntax_offset }
}

impl Keyed for SalsaFlowStatementSummary {
    open spec fn key(&self) -> u32 { self.syntax_offset }
    fn get_key(&self) -> (k: u32) { self.syntax_offset }
}

impl Keyed for SalsaFlowConditionSummary {
    open spec fn key(&self) -> u32 { self.node_offset }
    fn get_key(&self) -> (k: u32) { self.node_offset }
}

impl Keyed for SalsaFlowBranchSummary {
    open spec fn key(&self) -> u32 { self.syntax_offset }
    fn get_key(&self) -> (k: u32) { self.syntax_offset }
}

impl Keyed for SalsaFlowLoopSummary {
    open spec fn key(&self) -> u32 { self.syntax_offset }
    fn get_key(&self) -> (k: u32) { self.syntax_offset }
}

impl Keyed for SalsaFlowJumpSummary {
    open spec fn key(&self) -> u32 { self.syntax_offset }
    fn get_key(&self) -> (k: u32) { self.syntax_offset }
}

impl Keyed for SalsaFlowGotoSummary {
    open spec fn key(&self) -> u32 { self.syntax_offset }
    fn get_key(&self) -> (k: u32) { self.syntax_offset }
}

// ---------------------------------------------------------------------------
// The index over a flow summary, as specifications.

pub open spec fn spec_find_block(flow: SalsaFlowSummary, off: u32) -> Option<SalsaFlowBlockSummary> {
    last_with_key(flow.blocks@, off)
}

pub open spec fn spec_find_statement(flow: SalsaFlowSummary, off: u32) -> Option<SalsaFlowStatementSummary> {
    last_with_key(flow.statements@, off)
}

pub open spec fn spec_find_condition(flow: SalsaFlowSummary, off: u32) -> Option<SalsaFlowConditionSummary> {
    last_with_key(flow.conditions@, off)
}

pub open spec fn spec_find_branch(flow: SalsaFlowSummary, off: u32) -> Option<SalsaFlowBranchSummary> {
    last_with_key(flow.branches@, off)
}

pub open spec fn spec_find_loop(flow: SalsaFlowSummary, off: u32) -> Option<SalsaFlowLoopSummary> {
    last_with_key(flow.loops@, off)
}

/// The block that a parent link leads to from the block at `off`.
pub open spec fn spec_parent_of(flow: SalsaFlowSummary, off: u32) -> Option<u32> {
    match spec_find_block(flow, off) {
        Some(b) => b.parent_block_offset,
        None => None,
    }
}

pub open spec fn is_function_owner(k: SalsaFlowBlockOwnerKindSummary) -> bool {
    k == SalsaFlowBlockOwnerKindSummary::FuncStat || k == SalsaFlowBlockOwnerKindSummary::LocalFuncStat
        || k == SalsaFlowBlockOwnerKindSummary::ClosureExpr
}

pub open spec fn is_loop_owner(k: SalsaFlowBlockOwnerKindSummary) -> bool {
    k == SalsaFlowBlockOwnerKindSummary::WhileStat || k == SalsaFlowBlockOwnerKindSummary::RepeatStat
        || k == SalsaFlowBlockOwnerKindSummary::ForStat || k == SalsaFlowBlockOwnerKindSummary::ForRangeStat
}

/// A block starts a flow region when it has no parent or belongs to a function body.
pub open spec fn spec_is_flow_region_root(b: SalsaFlowBlockSummary) -> bool {
    b.parent_block_offset.is_none() || is_function_owner(b.owner_kind)
}

/// The root block of the flow region of the block at `off`, following at most
/// `fuel` parent links.
pub open spec fn region_root_fuel(flow: SalsaFlowSummary, off: u32, fuel: nat) -> Option<u32>
    decreases fuel,
{
    match spec_find_block(flow, off) {
        None => None,
        Some(b) => if spec_is_flow_region_root(b) {
            Some(off)
        } else if fuel == 0 {
            None
        } else {
            region_root_fuel(flow, b.parent_block_offset.unwrap(), (fuel - 1) as nat)
        },
    }
}

/// The root block of the flow region of the block at `off`. A parent chain that
/// needs more links than there are blocks runs in a circle and has no root.
pub open spec fn spec_region_root(flow: SalsaFlowSummary, off: u32) -> Option<u32> {
    region_root_fuel(flow, off, flow.blocks@.len())
}

/// The loop that encloses the block at `off`, following at most `fuel` parent links.
pub open spec fn enclosing_loop_fuel(flow: SalsaFlowSummary, off: u32, fuel: nat) -> Option<u32>
    decreases fuel,
{
    match spec_find_block(flow, off) {
        None => None,
        Some(b) => if is_loop_owner(b.owner_kind) {
            Some(b.owner_offset)
        } else {
            match b.parent_block_offset {
                None => None,
                Some(p) => if fuel == 0 { None } else { enclosing_loop_fuel(flow, p, (fuel - 1) as nat) },
            }
        },
    }
}

pub open spec fn spec_enclosing_loop(flow: SalsaFlowSummary, off: u32) -> Option<u32> {
    enclosing_loop_fuel(flow, off, flow.blocks@.len())
}

/// Finds the block at `off`.
pub fn find_block(flow: &SalsaFlowSummary, off: u32) -> (r: Option<&SalsaFlowBlockSummary>)
    ensures
        match r {
            Some(b) => spec_find_block(*flow, off) == Some(*b),
            None => spec_find_block(*flow, off).is_none(),
        },
{
    proof { lemma_last_index_with_key(flow.blocks@, off); }
    match find_last_index(&flow.blocks, off) {
        Some(i) => Some(&flow.blocks[i]),
        None => None,
    }
}

} // verus!

verus! {

/// Finds the statement at `off`.
pub fn find_statement(flow: &SalsaFlowSummary, off: u32) -> (r: Option<SalsaFlowStatementSummary>)
    ensures
        r == spec_find_statement(*flow, off),
{
    proof { lemma_last_index_with_key(flow.statements@, off); }
    match find_last_index(&flow.statements, off) {
        Some(i) => Some(flow.statements[i]),
        None => None,
    }
}

/// Finds the condition node at `off`.
pub fn find_condition(flow: &SalsaFlowSummary, off: u32) -> (r: Option<SalsaFlowConditionSummary>)
    ensures
        r == spec_find_condition(*flow, off),
{
    proof { lemma_last_index_with_key(flow.conditions@, off); }
    match find_last_index(&flow.conditions, off) {
        Some(i) => Some(flow.conditions[i]),
        None => None,
    }
}

/// Finds the branch statement at `off`.
pub fn find_branch(flow: &SalsaFlowSummary, off: u32) -> (r: Option<&SalsaFlowBranchSummary>)
    ensures
        match r {
            Some(b) => spec_find_branch(*flow, off) == Some(*b),
            None => spec_find_branch(*flow, off).is_none(),
        },
{
    proof { lemma_last_index_with_key(flow.branches@, off); }
    match find_last_index(&flow.branches, off) {
        Some(i) => Some(&flow.branches[i]),
        None => None,
    }
}

/// Finds the loop statement at `off`.
pub fn find_loop(flow: &SalsaFlowSummary, off: u32) -> (r: Option<&SalsaFlowLoopSummary>)
    ensures
        match r {
            Some(l) => spec_find_loop(*flow, off) == Some(*l),
            None => spec_find_loop(*flow, off).is_none(),
        },
{
    proof { lemma_last_index_with_key(flow.loops@, off); }
    match find_last_index(&flow.loops, off) {
        Some(i) => Some(&flow.loops[i]),
        None => None,
    }
}

/// Index of the first block owned by the syntax node of kind `kind` at `off`, or -1.
pub open spec fn first_owned_block_index(
    blocks: Seq<SalsaFlowBlockSummary>,
    kind: SalsaFlowBlockOwnerKindSummary,
    off: u32,
) -> int
    decreases blocks.len(),
{
    if blocks.len() == 0 {
        -1
    } else {
        let r = first_owned_block_index(blocks.drop_last(), kind, off);
        if r >= 0 {
            r
        } else if blocks.last().owner_kind == kind && blocks.last().owner_offset == off {
            blocks.len() - 1
        } else {
            -1
        }
    }
}

pub proof fn lemma_first_owned_block_index(
    blocks: Seq<SalsaFlowBlockSummary>,
    kind: SalsaFlowBlockOwnerKindSummary,
    off: u32,
)
    ensures
        -1 <= first_owned_block_index(blocks, kind, off) < blocks.len(),
    decreases blocks.len(),
{
    if blocks.len() > 0 {
        lemma_first_owned_block_index(blocks.drop_last(), kind, off);
    }
}

/// The first block owned by the syntax node of kind `kind` at `off`.
pub open spec fn spec_find_owned_block(
    flow: SalsaFlowSummary,
    kind: SalsaFlowBlockOwnerKindSummary,
    off: u32,
) -> Option<SalsaFlowBlockSummary> {
    let i = first_owned_block_index(flow.blocks@, kind, off);
    if i >= 0 { Some(flow.blocks@[i]) } else { None }
}

/// Finds the first block owned by the syntax node of kind `kind` at `off`.
pub fn find_owned_block(
    flow: &SalsaFlowSummary,
    kind: SalsaFlowBlockOwnerKindSummary,
    off: u32,
) -> (r: Option<&SalsaFlowBlockSummary>)
    ensures
        match r {
            Some(b) => spec_find_owned_block(*flow, kind, off) == Some(*b),
            None => spec_find_owned_block(*flow, kind, off).is_none(),
        },
{
    let mut i: usize = 0;
    while i < flow.blocks.len()
        invariant
            i <= flow.blocks@.len(),
            first_owned_block_index(flow.blocks@.take(i as int), kind, off) == -1,
        decreases flow.blocks@.len() - i,
    {
        assert(flow.blocks@.take(i + 1).drop_last() =~= flow.blocks@.take(i as int));
        if flow.blocks[i].owner_kind == kind && flow.blocks[i].owner_offset == off {
            proof { lemma_first_owned_block_index_prefix(flow.blocks@, kind, off, i + 1); }
            return Some(&flow.blocks[i]);
        }
        i = i + 1;
    }
    assert(flow.blocks@.take(i as int) =~= flow.blocks@);
    None
}

/// Once a prefix holds an owned block, longer prefixes find the same one.
pub proof fn lemma_first_owned_block_index_prefix(
    blocks: Seq<SalsaFlowBlockSummary>,
    kind: SalsaFlowBlockOwnerKindSummary,
    off: u32,
    n: int,
)
    requires
        0 <= n <= blocks.len(),
        first_owned_block_index(blocks.take(n), kind, off) >= 0,
    ensures
        first_owned_block_index(blocks, kind, off) == first_owned_block_index(blocks.take(n), kind, off),
    decreases blocks.len() - n,
{
    if n < blocks.len() {
        assert(blocks.take(n + 1).drop_last() =~= blocks.take(n));
        lemma_first_owned_block_index_prefix(blocks, kind, off, n + 1);
    } else {
        assert(blocks.take(n) =~= blocks);
    }
}

/// The branch statement that has a clause at `off`: the last such branch.
pub open spec fn spec_branch_of_clause(branches: Seq<SalsaFlowBranchSummary>, off: u32) -> Option<u32>
    decreases branches.len(),
{
    if branches.len() == 0 {
        None
    } else if exists|j: int| 0 <= j < branches.last().clauses@.len()
        && #[trigger] branches.last().clauses@[j].syntax_offset == off {
        Some(branches.last().syntax_offset)
    } else {
        spec_branch_of_clause(branches.drop_last(), off)
    }
}

/// Finds the branch statement that owns the clause at `off`.
pub fn branch_offset_of_clause(flow: &SalsaFlowSummary, off: u32) -> (r: Option<u32>)
    ensures
        r == spec_branch_of_clause(flow.branches@, off),
{
    let mut i: usize = flow.branches.len();
    assert(flow.branches@.take(i as int) =~= flow.branches@);
    while i > 0
        invariant
            i <= flow.branches@.len(),
            spec_branch_of_clause(flow.branches@, off) == spec_branch_of_clause(flow.branches@.take(i as int), off),
        decreases i,
    {
        let ghost pre = flow.branches@.take(i as int);
        assert(pre.drop_last() =~= flow.branches@.take(i - 1));
        let branch = &flow.branches[i - 1];
        let mut j: usize = 0;
        while j < branch.clauses.len()
            invariant
                0 < i <= flow.branches@.len(),
                pre == flow.branches@.take(i as int),
                spec_branch_of_clause(flow.branches@, off) == spec_branch_of_clause(pre, off),
                *branch == flow.branches@[i - 1],
                j <= branch.clauses@.len(),
                forall|k: int| 0 <= k < j ==> branch.clauses@[k].syntax_offset != off,
            decreases branch.clauses@.len() - j,
        {
            if branch.clauses[j].syntax_offset == off {
                assert(pre.last() == flow.branches@[i - 1]);
                assert(pre.last().clauses@[j as int].syntax_offset == off);
                assert(spec_branch_of_clause(pre, off) == Some(branch.syntax_offset));
                return Some(branch.syntax_offset);
            }
            j = j + 1;
        }
        i = i - 1;
    }
    None
}

/// Finds the root block of the flow region of the block at `off`.
pub fn region_root_of(flow: &SalsaFlowSummary, off: u32) -> (r: Option<u32>)
    ensures
        r == spec_region_root(*flow, off),
{
    let mut cur = off;
    let mut fuel: usize = flow.blocks.len();
    loop
        invariant
            fuel <= flow.blocks@.len(),
            region_root_fuel(*flow, cur, fuel as nat) == spec_region_root(*flow, off),
        decreases fuel,
    {
        match find_block(flow, cur) {
            None => { return None; }
            Some(b) => {
                if b.parent_block_offset.is_none() || is_function_owner_kind(b.owner_kind) {
                    return Some(cur);
                }
                if fuel == 0 {
                    return None;
                }
                cur = b.parent_block_offset.unwrap();
                fuel = fuel - 1;
            }
        }
    }
}

/// Finds the loop that encloses the block at `off`.
pub fn enclosing_loop_of(flow: &SalsaFlowSummary, off: u32) -> (r: Option<u32>)
    ensures
        r == spec_enclosing_loop(*flow, off),
{
    let mut cur = off;
    let mut fuel: usize = flow.blocks.len();
    loop
        invariant
            fuel <= flow.blocks@.len(),
            enclosing_loop_fuel(*flow, cur, fuel as nat) == spec_enclosing_loop(*flow, off),
        decreases fuel,
    {
        match find_block(flow, cur) {
            None => { return None; }
            Some(b) => {
                if is_loop_owner_kind(b.owner_kind) {
                    return Some(b.owner_offset);
                }
                match b.parent_block_offset {
                    None => { return None; }
                    Some(p) => {
                        if fuel == 0 {
                            return None;
                        }
                        cur = p;
                        fuel = fuel - 1;
                    }
                }
            }
        }
    }
}

pub fn is_function_owner_kind(k: SalsaFlowBlockOwnerKindSummary) -> (r: bool)
    ensures
        r == is_function_owner(k),
{
    match k {
        SalsaFlowBlockOwnerKindSummary::FuncStat
        | SalsaFlowBlockOwnerKindSummary::LocalFuncStat
        | SalsaFlowBlockOwnerKindSummary::ClosureExpr => true,
        _ => false,
    }
}

pub fn is_loop_owner_kind(k: SalsaFlowBlockOwnerKindSummary) -> (r: bool)
    ensures
        r == is_loop_owner(k),
{
    match k {
        SalsaFlowBlockOwnerKindSummary::WhileStat
        | SalsaFlowBlockOwnerKindSummary::RepeatStat
        | SalsaFlowBlockOwnerKindSummary::ForStat
        | SalsaFlowBlockOwnerKindSummary::ForRangeStat => true,
        _ => false,
    }
}

/// Whether the block is the root of a flow region.
pub fn is_flow_region_root(block: &SalsaFlowBlockSummary) -> (r: bool)
    ensures
        r == spec_is_flow_region_root(*block),
{
    block.parent_block_offset.is_none() || is_function_owner_kind(block.owner_kind)
}

/// The last label whose block lies in the flow region rooted at `root` and whose
/// name is `name`.
pub open spec fn spec_last_label_in_region(
    flow: SalsaFlowSummary,
    labels: Seq<SalsaFlowLabelSummary>,
    root: u32,
    name: Seq<char>,
) -> Option<SalsaFlowLabelSummary>
    decreases labels.len(),
{
    if labels.len() == 0 {
        None
    } else {
        let l = labels.last();
        if l.block_offset.is_some() && spec_region_root(flow, l.block_offset.unwrap()) == Some(root)
            && l.name@ == name {
            Some(l)
        } else {
            spec_last_label_in_region(flow, labels.drop_last(), root, name)
        }
    }
}

/// The label that a `goto` in the block at `source_block` jumps to: one with its
/// name in the same flow region.
pub open spec fn spec_resolve_goto_label(
    flow: SalsaFlowSummary,
    goto_summary: SalsaFlowGotoSummary,
    source_block: u32,
) -> Option<SalsaFlowLabelSummary> {
    match spec_region_root(flow, source_block) {
        None => None,
        Some(root) => spec_last_label_in_region(flow, flow.labels@, root, goto_summary.label_name@),
    }
}

/// Finds the label that a `goto` in the block at `source_block` jumps to.
pub fn resolve_goto_target_label<'a>(
    flow: &'a SalsaFlowSummary,
    goto_summary: &SalsaFlowGotoSummary,
    source_block: u32,
) -> (r: Option<&'a SalsaFlowLabelSummary>)
    ensures
        match r {
            Some(l) => spec_resolve_goto_label(*flow, *goto_summary, source_block) == Some(*l),
            None => spec_resolve_goto_label(*flow, *goto_summary, source_block).is_none(),
        },
{
    let root = match region_root_of(flow, source_block) {
        None => { return None; }
        Some(root) => root,
    };
    let mut i: usize = flow.labels.len();
    assert(flow.labels@.take(i as int) =~= flow.labels@);
    while i > 0
        invariant
            i <= flow.labels@.len(),
            spec_resolve_goto_label(*flow, *goto_summary, source_block)
                == spec_last_label_in_region(*flow, flow.labels@.take(i as int), root, goto_summary.label_name@),
        decreases i,
    {
        let ghost pre = flow.labels@.take(i as int);
        assert(pre.drop_last() =~= flow.labels@.take(i - 1));
        let label = &flow.labels[i - 1];
        if let Some(b) = label.block_offset {
            if region_root_of(flow, b) == Some(root) && label.name == goto_summary.label_name {
                return Some(label);
            }
        }
        i = i - 1;
    }
    None
}

} // verus!
