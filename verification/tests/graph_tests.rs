use emmylua_query::semantic_graph::{
    SalsaSemanticGraphEdgeKindSummary, SalsaSemanticGraphEdgeSummary, SalsaSemanticGraphNodeSummary,
    SalsaSemanticGraphSummary, collect_incoming_semantic_graph_edges, collect_outgoing_semantic_graph_edges,
    collect_semantic_graph_predecessor_nodes, collect_semantic_graph_successor_nodes,
};
use emmylua_query::semantic_scc::{
    build_semantic_graph_query_index, build_semantic_graph_scc_index, collect_semantic_graph_scc_predecessor_components,
    collect_semantic_graph_scc_successor_components, find_semantic_graph_scc_component,
    find_semantic_graph_scc_component_by_id,
};

use SalsaSemanticGraphNodeSummary::{DeclValue, SignatureReturn};

fn edge(from: SalsaSemanticGraphNodeSummary, to: SalsaSemanticGraphNodeSummary) -> SalsaSemanticGraphEdgeSummary {
    SalsaSemanticGraphEdgeSummary { from, to, kind: SalsaSemanticGraphEdgeKindSummary::InitializerDecl }
}

fn sample_graph() -> SalsaSemanticGraphSummary {
    SalsaSemanticGraphSummary {
        nodes: vec![DeclValue(1), DeclValue(2), DeclValue(3), SignatureReturn(10)],
        edges: vec![
            edge(DeclValue(1), DeclValue(2)),
            edge(DeclValue(2), DeclValue(1)),
            edge(DeclValue(2), DeclValue(3)),
            edge(SignatureReturn(10), DeclValue(1)),
        ],
    }
}

#[test]
fn scc_components_follow_tarjan_finish_order() {
    let index = build_semantic_graph_scc_index(&sample_graph());
    assert_eq!(index.components.len(), 3);
    assert_eq!(index.components[0].nodes, vec![DeclValue(3)]);
    assert_eq!(index.components[1].nodes, vec![DeclValue(1), DeclValue(2)]);
    assert_eq!(index.components[2].nodes, vec![SignatureReturn(10)]);
    assert_eq!(index.node_component_ids, vec![1, 1, 0, 2]);
    for (i, component) in index.components.iter().enumerate() {
        assert_eq!(component.component_id, i);
    }
}

#[test]
fn scc_cycles_and_component_edges() {
    let index = build_semantic_graph_scc_index(&sample_graph());
    assert!(!index.components[0].is_cycle);
    assert!(index.components[1].is_cycle);
    assert!(!index.components[2].is_cycle);
    assert_eq!(index.components[1].successor_component_ids, vec![0]);
    assert_eq!(index.components[0].predecessor_component_ids, vec![1]);
    assert_eq!(index.components[2].successor_component_ids, vec![1]);
    assert_eq!(index.components[1].predecessor_component_ids, vec![2]);
    assert!(index.components[0].successor_component_ids.is_empty());
    assert!(index.components[2].predecessor_component_ids.is_empty());
}

#[test]
fn scc_self_loop_is_a_cycle() {
    let graph = SalsaSemanticGraphSummary {
        nodes: vec![DeclValue(4)],
        edges: vec![edge(DeclValue(4), DeclValue(4))],
    };
    let index = build_semantic_graph_scc_index(&graph);
    assert_eq!(index.components.len(), 1);
    assert!(index.components[0].is_cycle);
    assert!(index.components[0].successor_component_ids.is_empty());
}

#[test]
fn scc_topo_order_puts_dependencies_first() {
    let index = build_semantic_graph_scc_index(&sample_graph());
    assert_eq!(index.topo_order, vec![2, 1, 0]);
}

#[test]
fn scc_edges_to_unknown_nodes_are_ignored() {
    let graph = SalsaSemanticGraphSummary {
        nodes: vec![DeclValue(1)],
        edges: vec![edge(DeclValue(1), DeclValue(9))],
    };
    let index = build_semantic_graph_scc_index(&graph);
    assert_eq!(index.components.len(), 1);
    assert!(!index.components[0].is_cycle);
    assert_eq!(index.topo_order, vec![0]);
}

#[test]
fn scc_component_lookups() {
    let index = build_semantic_graph_scc_index(&sample_graph());
    let component = find_semantic_graph_scc_component(&index, &DeclValue(2)).expect("component of a node");
    assert_eq!(component.component_id, 1);
    assert!(find_semantic_graph_scc_component(&index, &DeclValue(99)).is_none());
    assert!(find_semantic_graph_scc_component_by_id(&index, 3).is_none());
    assert_eq!(find_semantic_graph_scc_component_by_id(&index, 2).unwrap().nodes, vec![SignatureReturn(10)]);
    let successors = collect_semantic_graph_scc_successor_components(&index, 1);
    assert_eq!(successors.len(), 1);
    assert_eq!(successors[0].component_id, 0);
    let predecessors = collect_semantic_graph_scc_predecessor_components(&index, 1);
    assert_eq!(predecessors.len(), 1);
    assert_eq!(predecessors[0].component_id, 2);
    assert!(collect_semantic_graph_scc_successor_components(&index, 7).is_empty());
}

#[test]
fn graph_query_edges_and_neighbours() {
    let query = build_semantic_graph_query_index(&sample_graph());
    let outgoing = collect_outgoing_semantic_graph_edges(&query, &DeclValue(2));
    assert_eq!(outgoing, vec![edge(DeclValue(2), DeclValue(1)), edge(DeclValue(2), DeclValue(3))]);
    let incoming = collect_incoming_semantic_graph_edges(&query, &DeclValue(1));
    assert_eq!(incoming, vec![edge(DeclValue(2), DeclValue(1)), edge(SignatureReturn(10), DeclValue(1))]);
    assert_eq!(collect_semantic_graph_successor_nodes(&query, &DeclValue(2)), vec![DeclValue(1), DeclValue(3)]);
    assert_eq!(
        collect_semantic_graph_predecessor_nodes(&query, &DeclValue(1)),
        vec![DeclValue(2), SignatureReturn(10)]
    );
    assert!(collect_semantic_graph_successor_nodes(&query, &DeclValue(3)).is_empty());
}

#[test]
fn scc_every_component_is_ordered_and_cycles_share_one() {
    let graph = SalsaSemanticGraphSummary {
        nodes: vec![DeclValue(1), DeclValue(2), DeclValue(3), DeclValue(4), DeclValue(5)],
        edges: vec![
            edge(DeclValue(1), DeclValue(2)),
            edge(DeclValue(2), DeclValue(3)),
            edge(DeclValue(3), DeclValue(1)),
            edge(DeclValue(3), DeclValue(4)),
            edge(DeclValue(4), DeclValue(5)),
            edge(DeclValue(5), DeclValue(4)),
        ],
    };
    let index = build_semantic_graph_scc_index(&graph);
    let ids = &index.node_component_ids;
    assert_eq!(index.components.len(), 2);
    assert_eq!(ids[0], ids[1]);
    assert_eq!(ids[1], ids[2]);
    assert_eq!(ids[3], ids[4]);
    assert_ne!(ids[0], ids[3]);
    assert!(ids[3] < ids[0]);
    assert_eq!(index.topo_order.len(), 2);
    assert_eq!(index.topo_order, vec![ids[0], ids[3]]);
}
