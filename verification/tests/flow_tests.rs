use emmylua_query::flow::{
    SalsaFlowBreakLinkSummary, SalsaFlowEdgeKindSummary, SalsaFlowEdgeSummary, SalsaFlowLoopLinkSummary,
    SalsaFlowNodeRefSummary, SalsaFlowReturnLinkSummary, SalsaFlowTerminalEdgeKindSummary,
    SalsaFlowTerminalEdgeSummary, build_flow_query_summary,
};
use emmylua_query::flow_graph::{
    can_reach_node, collect_incoming_edges, collect_outgoing_edges, collect_predecessor_nodes, collect_reachable_nodes,
    collect_successor_nodes,
};
use emmylua_query::flow_model::{
    SalsaFlowBlockOwnerKindSummary, SalsaFlowBlockSummary, SalsaFlowJumpSummary, SalsaFlowLoopKindSummary,
    SalsaFlowLoopSummary, SalsaFlowStatementKindSummary, SalsaFlowStatementSummary, SalsaFlowSummary,
};

use SalsaFlowEdgeKindSummary as EK;
use SalsaFlowNodeRefSummary as N;

fn block(
    offset: u32,
    parent: Option<u32>,
    owner_kind: SalsaFlowBlockOwnerKindSummary,
    owner_offset: u32,
    statements: &[u32],
) -> SalsaFlowBlockSummary {
    SalsaFlowBlockSummary {
        syntax_offset: offset,
        parent_block_offset: parent,
        owner_kind,
        owner_offset,
        statement_offsets: statements.to_vec(),
    }
}

fn statement(offset: u32, block_offset: u32, kind: SalsaFlowStatementKindSummary) -> SalsaFlowStatementSummary {
    SalsaFlowStatementSummary { syntax_offset: offset, block_offset, kind }
}

fn empty_flow() -> SalsaFlowSummary {
    SalsaFlowSummary {
        blocks: vec![],
        statements: vec![],
        conditions: vec![],
        branches: vec![],
        loops: vec![],
        returns: vec![],
        breaks: vec![],
        gotos: vec![],
        labels: vec![],
    }
}

fn e(kind: SalsaFlowEdgeKindSummary, from: SalsaFlowNodeRefSummary, to: SalsaFlowNodeRefSummary) -> SalsaFlowEdgeSummary {
    SalsaFlowEdgeSummary { kind, from, to }
}

fn return_flow() -> SalsaFlowSummary {
    let mut flow = empty_flow();
    flow.blocks = vec![block(0, None, SalsaFlowBlockOwnerKindSummary::Chunk, 0, &[1, 2])];
    flow.statements = vec![
        statement(1, 0, SalsaFlowStatementKindSummary::Linear),
        statement(2, 0, SalsaFlowStatementKindSummary::Return),
    ];
    flow.returns = vec![SalsaFlowJumpSummary { syntax_offset: 2, block_offset: Some(0) }];
    flow
}

#[test]
fn flow_of_a_returning_chunk() {
    let query = build_flow_query_summary(&return_flow());
    assert_eq!(query.root_block_offsets, vec![0]);
    assert_eq!(
        query.return_links,
        vec![SalsaFlowReturnLinkSummary { return_offset: 2, block_offset: Some(0), exit_root_block_offset: Some(0) }]
    );
    assert_eq!(
        query.terminal_edges,
        vec![SalsaFlowTerminalEdgeSummary {
            kind: SalsaFlowTerminalEdgeKindSummary::Return,
            syntax_offset: 2,
            source_block_offset: Some(0),
            target_block_offset: Some(0),
            target_label_offset: None,
            flow_region_root_offset: Some(0),
        }]
    );
    assert_eq!(
        query.edges,
        vec![
            e(EK::BlockToStatement, N::Block(0), N::Statement(1)),
            e(EK::StatementFallthrough, N::Statement(1), N::Statement(2)),
            e(EK::StatementToTerminal, N::Statement(2), N::Return(2)),
            e(EK::TerminalToTarget, N::Return(2), N::Block(0)),
            e(EK::TerminalToUnreachable, N::Return(2), N::Unreachable(2)),
        ]
    );
}

#[test]
fn flow_neighbours_and_reachability() {
    let query = build_flow_query_summary(&return_flow());
    assert_eq!(collect_successor_nodes(&query, &N::Return(2)), vec![N::Block(0), N::Unreachable(2)]);
    assert_eq!(collect_predecessor_nodes(&query, &N::Block(0)), vec![N::Return(2)]);
    assert_eq!(collect_outgoing_edges(&query, &N::Statement(1)).len(), 1);
    assert_eq!(collect_incoming_edges(&query, &N::Unreachable(2)).len(), 1);
    assert_eq!(
        collect_reachable_nodes(&query, &N::Block(0)),
        vec![N::Statement(1), N::Statement(2), N::Return(2), N::Unreachable(2)]
    );
    assert!(can_reach_node(&query, &N::Return(2), &N::Statement(1)));
    assert!(!can_reach_node(&query, &N::Unreachable(2), &N::Block(0)));
    assert!(can_reach_node(&query, &N::Unreachable(2), &N::Unreachable(2)));
    assert!(collect_reachable_nodes(&query, &N::Unreachable(2)).is_empty());
}

fn loop_flow() -> SalsaFlowSummary {
    let mut flow = empty_flow();
    flow.blocks = vec![
        block(0, None, SalsaFlowBlockOwnerKindSummary::Chunk, 0, &[10, 20]),
        block(11, Some(0), SalsaFlowBlockOwnerKindSummary::WhileStat, 10, &[12]),
    ];
    flow.statements = vec![
        statement(10, 0, SalsaFlowStatementKindSummary::Loop),
        statement(20, 0, SalsaFlowStatementKindSummary::Linear),
        statement(12, 11, SalsaFlowStatementKindSummary::Break),
    ];
    flow.loops = vec![SalsaFlowLoopSummary {
        syntax_offset: 10,
        kind: SalsaFlowLoopKindSummary::While,
        block_offset: Some(11),
        condition_node_offset: None,
        iter_expr_offsets: vec![],
    }];
    flow.breaks = vec![SalsaFlowJumpSummary { syntax_offset: 12, block_offset: Some(11) }];
    flow
}

#[test]
fn flow_of_a_loop_with_break() {
    let query = build_flow_query_summary(&loop_flow());
    assert_eq!(query.root_block_offsets, vec![0]);
    assert_eq!(
        query.loop_links,
        vec![SalsaFlowLoopLinkSummary {
            loop_offset: 10,
            entry_block_offset: Some(0),
            body_block_offset: Some(11),
            continue_block_offset: Some(11),
            exit_block_offset: Some(0),
        }]
    );
    assert_eq!(
        query.break_links,
        vec![SalsaFlowBreakLinkSummary {
            break_offset: 12,
            block_offset: Some(11),
            enclosing_loop_offset: Some(10),
            exit_block_offset: Some(0),
        }]
    );
    assert_eq!(
        query.edges,
        vec![
            e(EK::BlockToStatement, N::Block(0), N::Statement(10)),
            e(EK::BlockToStatement, N::Block(11), N::Statement(12)),
            e(EK::MergeToNext, N::Merge(10), N::Statement(20)),
            e(EK::StatementToLoop, N::Statement(10), N::Loop(10)),
            e(EK::LoopToBody, N::Loop(10), N::Block(11)),
            e(EK::LoopContinue, N::Block(11), N::Loop(10)),
            e(EK::LoopToMerge, N::Loop(10), N::Merge(10)),
            e(EK::StatementToTerminal, N::Statement(12), N::Break(12)),
            e(EK::TerminalToTarget, N::Break(12), N::Block(0)),
            e(EK::TerminalToUnreachable, N::Break(12), N::Unreachable(12)),
        ]
    );
    assert!(can_reach_node(&query, &N::Statement(10), &N::Statement(20)));
    assert!(!can_reach_node(&query, &N::Statement(20), &N::Statement(10)));
}

#[test]
fn flow_of_nothing_is_empty() {
    let query = build_flow_query_summary(&empty_flow());
    assert!(query.root_block_offsets.is_empty());
    assert!(query.edges.is_empty());
    assert!(query.terminal_edges.is_empty());
}
