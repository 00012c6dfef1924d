//! Properties of the queries taken together: what holds of every input, or
//! between the results of several calls.
use vstd::prelude::*;

use crate::decls::{SalsaDeclTreeSummary, spec_scope_in_ancestor_chain};
use crate::doc_tag::{
    SalsaDocOwnerSummary, TagView, lemma_group_properties, lemma_owner_order, lemma_sort_tags_in_order,
    properties_in_owner_order, property_like, props_have_owner, sort_tags_in_order, spec_doc_tag_properties,
    spec_is_property_like_kind, tags_have_owner,
};
use crate::flow_graph::{spec_has_edge, spec_is_walk, spec_predecessors, spec_reaches, spec_successors};
use crate::flow::{SalsaFlowEdgeSummary, SalsaFlowNodeRefSummary};
use crate::lexical::{
    SalsaLexicalUseIndex, SalsaLexicalUseSummary, insert_in_order, sort_in_order, spec_lexical_index_of, use_key_le,
};
use crate::property::{PropertyKeyView, PropertyView, spec_dedupe, spec_owner_key_properties};
use crate::semantic_graph::{SalsaSemanticGraphSccIndex, SalsaSemanticGraphSummary};
use crate::semantic_scc::{graph_reaches, spec_component_successor, spec_scc_index};
use crate::uses::SalsaUseSiteIndexSummary;
use crate::flow::SalsaFlowQuerySummary;
use crate::solver_run::{
    component_preds, lemma_initial_run_inv, lemma_open_count_zero, lemma_ready_exists, lemma_scc_preds_point_forward,
    lemma_step_keeps_run_inv, lemma_trace_prefix, preds_point_forward, run_inv, solver_trace,
};
use crate::solver_execution::{
    Ids, SalsaSemanticSolverTaskStateSummary, SalsaSemanticSolverWorklistSummary, spec_initial_execution, spec_worklist,
};
use crate::narrow::{SalsaTypeNarrowSummary, spec_narrow_type_offsets};
use crate::offsets::lemma_sorted_unique_eq;
use crate::property::SalsaPropertyQueryIndex;
use crate::doc_type::{SalsaDocTypeLoweredNode, SalsaDocTypeNodeSummary};
use crate::semantic_solver::{
    SalsaSemanticResolveStateSummary, spec_is_candidate_union, spec_propagated, spec_step, unknown_view,
};
use crate::solver_execution::{
    ResultView, SalsaSemanticSolverExecutionSummary, exec_task_views, is_min_id, law_complete_deterministic,
    law_complete_idempotent, result_views, spec_complete,
};
use crate::graph_build::{
    decl_edge, loop_edge, member_edge, signature_edge, spec_graph_edge, spec_graph_node,
    spec_initializer_edge, spec_return_value_edge, export_edge,
};
use crate::semantic::SalsaSingleFileSemanticSummary;
use crate::semantic_graph::{SalsaSemanticGraphEdgeSummary, SalsaSemanticGraphNodeSummary};
use crate::signature_model::{
    SalsaForRangeIterQueryIndex, SalsaSignatureExplainIndex, SalsaSignatureIndexSummary, SalsaSignatureReturnQueryIndex,
};
use crate::solver_shells::first_occurrences;
use crate::type_info::SalsaMemberTypeQueryIndex;

verus! {

/// Uses in source order: each may stand before every later one.
pub open spec fn uses_in_order(s: Seq<SalsaLexicalUseSummary>) -> bool {
    forall|i: int, j: int| 0 <= i < j < s.len() ==> use_key_le(#[trigger] s[i], #[trigger] s[j])
}

proof fn lemma_use_key_total(a: SalsaLexicalUseSummary, b: SalsaLexicalUseSummary)
    ensures
        use_key_le(a, b) || use_key_le(b, a),
        use_key_le(a, b) && use_key_le(b, a) ==> (forall|c: SalsaLexicalUseSummary| use_key_le(c, a) <==> use_key_le(c, b)),
{
}

proof fn lemma_insert_in_order_sorted(t: Seq<SalsaLexicalUseSummary>, x: SalsaLexicalUseSummary)
    requires
        uses_in_order(t),
    ensures
        uses_in_order(insert_in_order(t, x)),
        insert_in_order(t, x).to_multiset() == t.to_multiset().insert(x),
    decreases t.len(),
{
    broadcast use vstd::multiset::group_multiset_axioms;
    if t.len() == 0 {
        assert(insert_in_order(t, x) =~= seq![x]);
        assert(seq![x].to_multiset() =~= Seq::<SalsaLexicalUseSummary>::empty().to_multiset().insert(x)) by {
            vstd::seq_lib::to_multiset_build(Seq::<SalsaLexicalUseSummary>::empty(), x);
            assert(Seq::<SalsaLexicalUseSummary>::empty().push(x) =~= seq![x]);
        }
        assert(t =~= Seq::<SalsaLexicalUseSummary>::empty());
    } else if use_key_le(t.last(), x) {
        let r = t.push(x);
        assert forall|i: int, j: int| 0 <= i < j < r.len() implies use_key_le(#[trigger] r[i], #[trigger] r[j]) by {
            if j == r.len() - 1 {
                if i < t.len() - 1 {
                    assert(use_key_le(t[i], t[t.len() - 1]));
                }
            } else {
                assert(r[i] == t[i] && r[j] == t[j]);
            }
        }
        vstd::seq_lib::to_multiset_build(t, x);
    } else {
        let d = t.drop_last();
        assert(uses_in_order(d)) by {
            assert forall|i: int, j: int| 0 <= i < j < d.len() implies use_key_le(#[trigger] d[i], #[trigger] d[j]) by {
                assert(d[i] == t[i] && d[j] == t[j]);
            }
        }
        lemma_insert_in_order_sorted(d, x);
        let m = insert_in_order(d, x);
        let r = m.push(t.last());
        assert(insert_in_order(t, x) == r);
        // every element of m may stand before t.last()
        assert forall|k: int| 0 <= k < m.len() implies use_key_le(#[trigger] m[k], t.last()) by {
            assert(m.to_multiset().count(m[k]) > 0) by {
                vstd::seq_lib::lemma_seq_contains_after_push(m, t.last(), m[k]);
                assert(m.contains(m[k]));
                m.to_multiset_ensures();
            }
            d.to_multiset_ensures();
            if m[k] == x {
                lemma_use_key_total(x, t.last());
            } else {
                assert(d.to_multiset().count(m[k]) > 0);
                assert(d.contains(m[k]));
                let q = choose|q: int| 0 <= q < d.len() && d[q] == m[k];
                assert(use_key_le(t[q], t[t.len() - 1]));
            }
        }
        assert forall|i: int, j: int| 0 <= i < j < r.len() implies use_key_le(#[trigger] r[i], #[trigger] r[j]) by {
            if j == r.len() - 1 {
                assert(r[i] == m[i]);
            } else {
                assert(r[i] == m[i] && r[j] == m[j]);
            }
        }
        vstd::seq_lib::to_multiset_build(m, t.last());
        vstd::seq_lib::to_multiset_build(d, t.last());
        assert(t =~= d.push(t.last()));
    }
}

proof fn lemma_sort_in_order(s: Seq<SalsaLexicalUseSummary>)
    ensures
        uses_in_order(sort_in_order(s)),
        sort_in_order(s).to_multiset() == s.to_multiset(),
    decreases s.len(),
{
    broadcast use vstd::multiset::group_multiset_axioms;
    if s.len() == 0 {
    } else {
        lemma_sort_in_order(s.drop_last());
        lemma_insert_in_order_sorted(sort_in_order(s.drop_last()), s.last());
        vstd::seq_lib::to_multiset_build(s.drop_last(), s.last());
        assert(s =~= s.drop_last().push(s.last()));
    }
}

/// The lexical index lists every use of the use sites once, and in source order:
/// by offset, and at one offset a member use before a name use before a call.
pub proof fn law_lexical_uses_in_source_order(index: SalsaLexicalUseIndex, sites: SalsaUseSiteIndexSummary)
    requires
        spec_lexical_index_of(index, sites),
    ensures
        uses_in_order(index.uses@),
        index.uses@.to_multiset() == crate::lexical::spec_unordered_uses(sites).to_multiset(),
{
    lemma_sort_in_order(crate::lexical::spec_unordered_uses(sites));
}

/// Reachability in the flow graph is transitive: what can be reached from a node
/// that `a` reaches can be reached from `a`.
pub proof fn law_flow_reach_transitive(
    edges: Seq<SalsaFlowEdgeSummary>,
    a: SalsaFlowNodeRefSummary,
    b: SalsaFlowNodeRefSummary,
    c: SalsaFlowNodeRefSummary,
)
    requires
        spec_reaches(edges, a, b),
        spec_reaches(edges, b, c),
    ensures
        spec_reaches(edges, a, c),
{
    let p = choose|p: Seq<SalsaFlowNodeRefSummary>| #[trigger] spec_is_walk(edges, p) && p.len() >= 2 && p[0] == a && p.last() == b;
    let q = choose|q: Seq<SalsaFlowNodeRefSummary>| #[trigger] spec_is_walk(edges, q) && q.len() >= 2 && q[0] == b && q.last() == c;
    let w = p + q.drop_first();
    assert forall|i: int| 0 <= i < w.len() - 1 implies spec_has_edge(edges, #[trigger] w[i], w[i + 1]) by {
        if i < p.len() - 1 {
            assert(w[i] == p[i] && w[i + 1] == p[i + 1]);
        } else if i == p.len() - 1 {
            assert(w[i] == b && w[i + 1] == q[1]);
            assert(spec_has_edge(edges, q[0], q[1]));
        } else {
            let j = i - p.len() + 1;
            assert(w[i] == q[j] && w[i + 1] == q[j + 1]);
        }
    }
    assert(spec_is_walk(edges, w));
    assert(w[0] == a);
    assert(w.last() == c);
}

/// In the component index, the components that component `c` leads to are those
/// that list `c` among the components leading to them.
pub proof fn law_scc_successors_mirror_predecessors(
    graph: SalsaSemanticGraphSummary,
    index: SalsaSemanticGraphSccIndex,
    c: usize,
    d: usize,
)
    requires
        spec_scc_index(graph, index),
        c < index.components@.len(),
        d < index.components@.len(),
    ensures
        index.components@[c as int].successor_component_ids@.contains(d) <==> index.components@[d as int].predecessor_component_ids@.contains(
            c,
        ),
{
    assert(index.components@[c as int].successor_component_ids@.contains(d) <==> spec_component_successor(
        graph.nodes@,
        graph.edges@,
        index.node_component_ids@,
        c as int,
        d as int,
    ));
    assert(index.components@[d as int].predecessor_component_ids@.contains(c) <==> spec_component_successor(
        graph.nodes@,
        graph.edges@,
        index.node_component_ids@,
        c as int,
        d as int,
    ));
}

/// No component is its own successor: edges inside a component stay inside it.
pub proof fn law_scc_no_self_successor(graph: SalsaSemanticGraphSummary, index: SalsaSemanticGraphSccIndex, c: int)
    requires
        spec_scc_index(graph, index),
        0 <= c < index.components@.len(),
    ensures
        !index.components@[c].successor_component_ids@.contains(c as usize),
{
    assert(index.components@[c].successor_component_ids@.contains(c as usize) <==> spec_component_successor(
        graph.nodes@,
        graph.edges@,
        index.node_component_ids@,
        c,
        c,
    ));
}

/// The solve order places a component after every component with an edge to it.
pub proof fn law_scc_topo_order_respects_edges(
    graph: SalsaSemanticGraphSummary,
    index: SalsaSemanticGraphSccIndex,
    i: int,
    j: int,
)
    requires
        spec_scc_index(graph, index),
        0 <= i < index.topo_order@.len(),
        0 <= j < index.topo_order@.len(),
        index.components@[index.topo_order@[i] as int].successor_component_ids@.contains(index.topo_order@[j]),
    ensures
        i < j,
{
    let t = index.topo_order@;
    let c = t[i];
    let d = t[j];
    assert(c < index.components@.len());
    assert(spec_component_successor(graph.nodes@, graph.edges@, index.node_component_ids@, c as int, d as int));
    assert(t.take(j).contains(c));
    let k = choose|k: int| 0 <= k < t.take(j).len() && t.take(j)[k] == c;
    assert(t[k] == c);
    if i != k {
        assert(t.no_duplicates());
    }
}

/// The solve order lists every component exactly once.
pub proof fn law_scc_topo_order_lists_every_component(graph: SalsaSemanticGraphSummary, index: SalsaSemanticGraphSccIndex, c: int)
    requires
        spec_scc_index(graph, index),
        0 <= c < index.components@.len(),
    ensures
        index.topo_order@.contains(c as usize),
        index.topo_order@.no_duplicates(),
{
    let t = index.topo_order@;
    let m = index.components@.len();
    assert(t.len() == m);
    if !t.contains(c as usize) {
        let s = t.map_values(|x: usize| x as int);
        assert(s.no_duplicates()) by {
            assert forall|a: int, b: int| 0 <= a < s.len() && 0 <= b < s.len() && a != b implies s[a] != s[b] by {
                assert(t[a] != t[b]);
            }
        }
        s.unique_seq_to_set();
        vstd::set_lib::lemma_int_range(0, m as int);
        assert(s.to_set().subset_of(vstd::set_lib::set_int_range(0, m as int).remove(c))) by {
            assert forall|x: int| s.to_set().contains(x) implies vstd::set_lib::set_int_range(0, m as int).remove(c).contains(x) by {
                let k = choose|k: int| 0 <= k < s.len() && s[k] == x;
                assert(t[k] < m);
                if x == c {
                    assert(t[k] == c as usize);
                }
            }
        }
        vstd::set_lib::lemma_len_subset(s.to_set(), vstd::set_lib::set_int_range(0, m as int).remove(c));
    }
}

/// Two nodes share a component exactly when each reaches the other.
pub proof fn law_scc_components_are_mutual_reachability(graph: SalsaSemanticGraphSummary, index: SalsaSemanticGraphSccIndex, a: int, b: int)
    requires
        spec_scc_index(graph, index),
        0 <= a < graph.nodes@.len(),
        0 <= b < graph.nodes@.len(),
    ensures
        index.node_component_ids@[a] == index.node_component_ids@[b] <==> (graph_reaches(graph.nodes@, graph.edges@, a, b)
            && graph_reaches(graph.nodes@, graph.edges@, b, a)),
{
    let ids = index.node_component_ids@;
    if ids[a] == ids[b] {
        assert(graph_reaches(graph.nodes@, graph.edges@, a, b));
        assert(graph_reaches(graph.nodes@, graph.edges@, b, a));
    }
}

/// The properties answered for one owner and key hold no two equal properties.
pub proof fn law_owner_key_properties_distinct(owned: Seq<PropertyView>, key: PropertyKeyView)
    ensures
        spec_owner_key_properties(owned, key).no_duplicates(),
{
    lemma_dedupe_distinct(
        owned.filter(|p: PropertyView| p.key == key) + owned.filter_map(
            |p: PropertyView| crate::property::spec_expand_multi_result_tail(p, key),
        ),
    );
}

proof fn lemma_dedupe_distinct(s: Seq<PropertyView>)
    ensures
        spec_dedupe(s).no_duplicates(),
    decreases s.len(),
{
    if s.len() > 0 {
        lemma_dedupe_distinct(s.drop_last());
        let d = spec_dedupe(s.drop_last());
        if !d.contains(s.last()) {
            let e = d.push(s.last());
            assert forall|a: int, b: int| 0 <= a < e.len() && 0 <= b < e.len() && a != b implies e[a] != e[b] by {
                if a == d.len() as int {
                    assert(e[b] == d[b]);
                } else if b == d.len() as int {
                    assert(e[a] == d[a]);
                } else {
                    assert(e[a] == d[a] && e[b] == d[b]);
                }
            }
        }
    }
}

/// A scope is in its own ancestor chain.
pub proof fn law_scope_in_own_chain(tree: SalsaDeclTreeSummary, scope_id: u32)
    ensures
        spec_scope_in_ancestor_chain(tree, scope_id, scope_id),
{
}

/// The properties that a file's documentation tags add up to come in increasing
/// owner order, so no owner has two of them; and an owner has a property exactly
/// when one of the tags attached to it is property-like.
pub proof fn law_doc_tag_properties_one_per_owner(tags: Seq<TagView>)
    ensures
        properties_in_owner_order(spec_doc_tag_properties(tags)),
        forall|i: int, j: int|
            0 <= i < j < spec_doc_tag_properties(tags).len() ==> #[trigger] spec_doc_tag_properties(tags)[i].owner
                != #[trigger] spec_doc_tag_properties(tags)[j].owner,
        forall|o: SalsaDocOwnerSummary|
            #[trigger] props_have_owner(spec_doc_tag_properties(tags), o) <==> exists|k: int|
                0 <= k < tags.len() && spec_is_property_like_kind(tags[k].kind) && #[trigger] tags[k].owner == o,
{
    broadcast use vstd::seq_lib::group_filter_ensures;
    let f = tags.filter(property_like());
    lemma_sort_tags_in_order(f);
    let sorted = sort_tags_in_order(f);
    lemma_group_properties(sorted);
    let props = spec_doc_tag_properties(tags);
    assert forall|i: int, j: int| 0 <= i < j < props.len() implies #[trigger] props[i].owner != #[trigger] props[j].owner by {
        lemma_owner_order(props[i].owner, props[j].owner, props[j].owner);
    }
    assert forall|o: SalsaDocOwnerSummary| #[trigger] props_have_owner(props, o) <==> exists|k: int|
        0 <= k < tags.len() && spec_is_property_like_kind(tags[k].kind) && #[trigger] tags[k].owner == o by {
        assert(props_have_owner(props, o) == tags_have_owner(sorted, o));
        sorted.to_multiset_ensures();
        f.to_multiset_ensures();
        if tags_have_owner(sorted, o) {
            let k = choose|k: int| 0 <= k < sorted.len() && #[trigger] sorted[k].owner == o;
            assert(sorted.contains(sorted[k]));
            assert(sorted.to_multiset().count(sorted[k]) > 0);
            assert(f.to_multiset().count(sorted[k]) > 0);
            assert(f.contains(sorted[k]));
            let q = choose|q: int| 0 <= q < f.len() && f[q] == sorted[k];
            assert(property_like()(f[q]));
            assert(f.contains(f[q]));
            tags.lemma_filter_contains_rev(property_like(), f[q]);
            assert(tags.contains(f[q]));
            let w = choose|w: int| 0 <= w < tags.len() && tags[w] == f[q];
            assert(spec_is_property_like_kind(tags[w].kind) && tags[w].owner == o);
        }
        if exists|k: int| 0 <= k < tags.len() && spec_is_property_like_kind(tags[k].kind) && #[trigger] tags[k].owner == o {
            let k = choose|k: int|
                0 <= k < tags.len() && spec_is_property_like_kind(tags[k].kind) && #[trigger] tags[k].owner == o;
            assert(property_like()(tags[k]));
            assert(f.contains(tags[k]));
            assert(f.to_multiset().count(tags[k]) > 0);
            assert(sorted.to_multiset().count(tags[k]) > 0);
            assert(sorted.contains(tags[k]));
            let q = choose|q: int| 0 <= q < sorted.len() && sorted[q] == tags[k];
            assert(sorted[q].owner == o);
        }
    }
}

/// An edge that an initializer of `to` shows leads into `to`, from a node.
proof fn lemma_initializer_edge_ends(
    to: SalsaSemanticGraphNodeSummary,
    offset: u32,
    use_sites: SalsaUseSiteIndexSummary,
    calls: SalsaSignatureExplainIndex,
    nodes: Seq<SalsaSemanticGraphNodeSummary>,
    e: SalsaSemanticGraphEdgeSummary,
)
    requires
        spec_initializer_edge(to, offset, use_sites, calls, nodes, e),
    ensures
        e.to == to,
        nodes.contains(e.from),
{
}

/// Every edge of a file's semantic graph joins two of its nodes.
pub proof fn law_graph_edges_join_nodes(
    decl_tree: SalsaDeclTreeSummary,
    member_types: SalsaMemberTypeQueryIndex,
    signatures: SalsaSignatureIndexSummary,
    for_range_iters: SalsaForRangeIterQueryIndex,
    use_sites: SalsaUseSiteIndexSummary,
    calls: SalsaSignatureExplainIndex,
    return_index: SalsaSignatureReturnQueryIndex,
    semantic: SalsaSingleFileSemanticSummary,
    nodes: Seq<SalsaSemanticGraphNodeSummary>,
    e: SalsaSemanticGraphEdgeSummary,
)
    requires
        forall|n: SalsaSemanticGraphNodeSummary| #[trigger] nodes.contains(n) <==> spec_graph_node(
            decl_tree,
            member_types,
            signatures,
            for_range_iters,
            semantic,
            n,
        ),
        spec_graph_edge(decl_tree, member_types, signatures, for_range_iters, use_sites, calls, return_index, semantic, nodes, e),
    ensures
        nodes.contains(e.from),
        nodes.contains(e.to),
{
    if export_edge(semantic, nodes, e) {
        assert(spec_graph_node(decl_tree, member_types, signatures, for_range_iters, semantic, SalsaSemanticGraphNodeSummary::ModuleExport));
    } else if exists|i: int| 0 <= i < decl_tree.decls@.len() && #[trigger] decl_edge(decl_tree.decls@[i], use_sites, calls, nodes, e) {
        let i = choose|i: int| 0 <= i < decl_tree.decls@.len() && #[trigger] decl_edge(decl_tree.decls@[i], use_sites, calls, nodes, e);
        let d = decl_tree.decls@[i];
        lemma_initializer_edge_ends(SalsaSemanticGraphNodeSummary::DeclValue(d.id), d.value_expr_offset->0, use_sites, calls, nodes, e);
        let ids = decl_tree.decls@.map_values(|x: crate::decls::SalsaDeclSummary| x.id);
        assert(ids[i] == d.id);
        assert(ids.contains(d.id));
    } else if exists|i: int, j: int| 0 <= i < member_types.members@.len() && #[trigger] member_edge(member_types.members@[i], j, use_sites, calls, nodes, e) {
        let (i, j) = choose|i: int, j: int| 0 <= i < member_types.members@.len() && #[trigger] member_edge(member_types.members@[i], j, use_sites, calls, nodes, e);
        let m = member_types.members@[i];
        lemma_initializer_edge_ends(SalsaSemanticGraphNodeSummary::MemberValue(m.target), m.candidates@[j].initializer_offset->0, use_sites, calls, nodes, e);
        let ts = member_types.members@.map_values(|x: crate::type_info::SalsaMemberTypeInfoSummary| x.target);
        assert(ts[i] == m.target);
        assert(ts.contains(m.target));
    } else if exists|i: int, j: int| 0 <= i < for_range_iters.loops@.len() && #[trigger] loop_edge(for_range_iters.loops@[i], j, use_sites, calls, nodes, e) {
        let (i, j) = choose|i: int, j: int| 0 <= i < for_range_iters.loops@.len() && #[trigger] loop_edge(for_range_iters.loops@[i], j, use_sites, calls, nodes, e);
        let l = for_range_iters.loops@[i];
        lemma_initializer_edge_ends(SalsaSemanticGraphNodeSummary::ForRangeIter(l.loop_offset), l.iter_expr_offsets@[j], use_sites, calls, nodes, e);
        let os = for_range_iters.loops@.map_values(|x: crate::signature_model::SalsaForRangeIterQuerySummary| x.loop_offset);
        assert(os[i] == l.loop_offset);
        assert(os.contains(l.loop_offset));
    } else {
        let (i, j) = choose|i: int, j: int| 0 <= i < signatures.signatures@.len() && #[trigger] signature_edge(signatures.signatures@[i], j, return_index, use_sites, nodes, e);
        let g = signatures.signatures@[i];
        let os = signatures.signatures@.map_values(|x: crate::signature_model::SalsaSignatureSummary| x.syntax_offset);
        assert(os[i] == g.syntax_offset);
        assert(os.contains(g.syntax_offset));
        assert(spec_graph_node(decl_tree, member_types, signatures, for_range_iters, semantic, SalsaSemanticGraphNodeSummary::SignatureReturn(g.syntax_offset)));
    }
}

/// Deduplicating keeps each element once, the first time it occurs, and adds none.
pub proof fn law_first_occurrences_distinct(s: Seq<u32>)
    ensures
        forall|i: int, j: int|
            0 <= i < j < first_occurrences(s).len() ==> first_occurrences(s)[i] != first_occurrences(s)[j],
        forall|x: u32| first_occurrences(s).contains(x) <==> s.contains(x),
    decreases s.len(),
{
    if s.len() > 0 {
        let r = first_occurrences(s.drop_last());
        law_first_occurrences_distinct(s.drop_last());
        assert forall|x: u32| first_occurrences(s).contains(x) <==> s.contains(x) by {
            vstd::seq_lib::lemma_seq_contains_after_push(r, s.last(), x);
            vstd::seq_lib::lemma_seq_contains_after_push(s.drop_last(), s.last(), x);
            assert(s.drop_last().push(s.last()) =~= s);
        }
        if !r.contains(s.last()) {
            assert forall|i: int, j: int| 0 <= i < j < r.push(s.last()).len() implies r.push(s.last())[i]
                != r.push(s.last())[j] by {
                if j == r.len() {
                    assert(r.contains(r[i]));
                }
            }
        }
    }
}

/// How many times `x` occurs in `s`.
pub open spec fn occurrences(s: Seq<SalsaFlowNodeRefSummary>, x: SalsaFlowNodeRefSummary) -> nat
    decreases s.len(),
{
    if s.len() == 0 {
        0
    } else {
        occurrences(s.drop_last(), x) + if s.last() == x { 1nat } else { 0nat }
    }
}

/// How many edges lead from `a` to `b`.
pub open spec fn edge_count(edges: Seq<SalsaFlowEdgeSummary>, a: SalsaFlowNodeRefSummary, b: SalsaFlowNodeRefSummary) -> nat
    decreases edges.len(),
{
    if edges.len() == 0 {
        0
    } else {
        edge_count(edges.drop_last(), a, b) + if edges.last().from == a && edges.last().to == b { 1nat } else { 0nat }
    }
}

proof fn lemma_occurrences_push(s: Seq<SalsaFlowNodeRefSummary>, y: SalsaFlowNodeRefSummary, x: SalsaFlowNodeRefSummary)
    ensures
        occurrences(s.push(y), x) == occurrences(s, x) + if y == x { 1nat } else { 0nat },
{
    assert(s.push(y).drop_last() =~= s);
}

/// Node `b` is listed among the successors of `a` as many times as `a` is listed
/// among the predecessors of `b`: once for each edge from `a` to `b`.
pub proof fn law_flow_successors_mirror_predecessors(
    edges: Seq<SalsaFlowEdgeSummary>,
    a: SalsaFlowNodeRefSummary,
    b: SalsaFlowNodeRefSummary,
)
    ensures
        occurrences(spec_successors(edges, a), b) == edge_count(edges, a, b),
        occurrences(spec_predecessors(edges, b), a) == edge_count(edges, a, b),
    decreases edges.len(),
{
    if edges.len() > 0 {
        law_flow_successors_mirror_predecessors(edges.drop_last(), a, b);
        let e = edges.last();
        lemma_occurrences_push(spec_successors(edges.drop_last(), a), e.to, b);
        lemma_occurrences_push(spec_predecessors(edges.drop_last(), b), e.from, a);
    }
}

/// The neighbour queries of a flow query mirror each other:
/// `collect_successor_nodes(query, a)` lists `b` as many times as
/// `collect_predecessor_nodes(query, b)` lists `a`, once per edge from `a` to
/// `b`; both keep the order of the edges.
pub proof fn law_flow_neighbour_counts(query: SalsaFlowQuerySummary, a: SalsaFlowNodeRefSummary, b: SalsaFlowNodeRefSummary)
    ensures
        occurrences(spec_successors(query.edges@, a), b) == edge_count(query.edges@, a, b),
        occurrences(spec_predecessors(query.edges@, b), a) == edge_count(query.edges@, a, b),
        occurrences(spec_successors(query.edges@, a), b) == occurrences(spec_predecessors(query.edges@, b), a),
{
    law_flow_successors_mirror_predecessors(query.edges@, a, b);
}

/// Completing a component a second time changes nothing: whatever result the
/// second `complete_semantic_solver_execution_task_with_result` is given, it
/// leaves the tasks, ready ids, completed ids and results as the first left
/// them.
pub proof fn law_completing_twice_changes_nothing(
    e: SalsaSemanticSolverExecutionSummary,
    id: usize,
    r1: Option<ResultView>,
    r2: Option<ResultView>,
    n1: SalsaSemanticSolverExecutionSummary,
    n2: SalsaSemanticSolverExecutionSummary,
)
    requires
        spec_complete(e, id, r1, n1),
        spec_complete(n1, id, r2, n2),
    ensures
        exec_task_views(n2.tasks@) == exec_task_views(n1.tasks@),
        n2.ready_component_ids@ == n1.ready_component_ids@,
        n2.completed_component_ids@ == n1.completed_component_ids@,
        result_views(n2.component_results@) == result_views(n1.component_results@),
{
    law_complete_idempotent(e, id, r1, r2, n1, n2);
}

/// Completing without a result is completing with `None`: what
/// `complete_semantic_solver_execution_task` gives and what
/// `complete_semantic_solver_execution_task_with_result(.., None)` gives are
/// the same execution; in particular the results are left as they were.
pub proof fn law_completion_without_result_is_with_none(
    e: SalsaSemanticSolverExecutionSummary,
    id: usize,
    plain: SalsaSemanticSolverExecutionSummary,
    with_none: SalsaSemanticSolverExecutionSummary,
)
    requires
        spec_complete(e, id, None, plain),
        spec_complete(e, id, None, with_none),
    ensures
        exec_task_views(plain.tasks@) == exec_task_views(with_none.tasks@),
        plain.ready_component_ids@ == with_none.ready_component_ids@,
        plain.completed_component_ids@ == with_none.completed_component_ids@,
        result_views(plain.component_results@) == result_views(with_none.component_results@),
        result_views(plain.component_results@) == result_views(e.component_results@),
{
    law_complete_deterministic(e, id, None, plain, with_none);
}

/// The least ready id is one: `find_next_ready_semantic_solver_execution_task`
/// and `step_semantic_solver_execution` both take the least ready id, so they
/// name the same component.
pub proof fn law_least_ready_id_is_unique(ready: Seq<usize>, m1: usize, m2: usize)
    requires
        is_min_id(ready, m1),
        is_min_id(ready, m2),
    ensures
        m1 == m2,
{
    let i = choose|i: int| 0 <= i < ready.len() && ready[i] == m1;
    let j = choose|j: int| 0 <= j < ready.len() && ready[j] == m2;
    assert(m1 <= ready[j]);
    assert(m2 <= ready[i]);
}

/// A step is a completion: the execution that `step_semantic_solver_execution`
/// gives after completing its least ready component `m` is the one that
/// `complete_semantic_solver_execution_task(execution, m)` gives.
pub proof fn law_step_is_completion(
    e: SalsaSemanticSolverExecutionSummary,
    m: usize,
    stepped: SalsaSemanticSolverExecutionSummary,
    completed: SalsaSemanticSolverExecutionSummary,
)
    requires
        is_min_id(e.ready_component_ids@, m),
        spec_complete(e, m, None, stepped),
        spec_complete(e, m, None, completed),
    ensures
        exec_task_views(stepped.tasks@) == exec_task_views(completed.tasks@),
        stepped.ready_component_ids@ == completed.ready_component_ids@,
        stepped.completed_component_ids@ == completed.completed_component_ids@,
        result_views(stepped.component_results@) == result_views(completed.component_results@),
{
    law_complete_deterministic(e, m, None, stepped, completed);
}

/// The union of the candidates of some shells is one list: two increasing lists
/// without repeats that both hold exactly the shells' candidates are equal. So
/// `merge_solver_value_shells` on the fixed points of the predecessors gives
/// the input shell of a component result.
pub proof fn law_candidate_union_is_unique(
    shells: Seq<(SalsaSemanticResolveStateSummary, Seq<u32>)>,
    a: Seq<u32>,
    b: Seq<u32>,
)
    requires
        spec_is_candidate_union(shells, a),
        spec_is_candidate_union(shells, b),
    ensures
        a == b,
{
    lemma_sorted_unique_eq(a, b);
}

/// A transfer step has one result: two shells that both follow
/// `apply_component_transfer_step` from the same shells are equal. So the fixed
/// point of `solve_component_fixedpoint` is what one more step from it gives,
/// and two calls of it on the same shells agree.
pub proof fn law_transfer_step_is_a_function(
    propagated: (SalsaSemanticResolveStateSummary, Seq<u32>),
    local: (SalsaSemanticResolveStateSummary, Seq<u32>),
    current: Option<(SalsaSemanticResolveStateSummary, Seq<u32>)>,
    x: (SalsaSemanticResolveStateSummary, Seq<u32>),
    y: (SalsaSemanticResolveStateSummary, Seq<u32>),
)
    requires
        spec_step(propagated, local, current, x),
        spec_step(propagated, local, current, y),
    ensures
        x == y,
{
    lemma_sorted_unique_eq(x.1, y.1);
}

/// The fixed point agrees with a step from it: where `s` is what
/// `solve_component_fixedpoint(input, local, .., has_input)` gives, the step
/// `apply_component_transfer_step(build_propagated_value_shell(input,
/// has_input), local, Some(s))` gives `s` again.
pub proof fn law_fixed_point_is_stable(
    input: (SalsaSemanticResolveStateSummary, Seq<u32>),
    has_input: bool,
    local: (SalsaSemanticResolveStateSummary, Seq<u32>),
    s: (SalsaSemanticResolveStateSummary, Seq<u32>),
    stepped: (SalsaSemanticResolveStateSummary, Seq<u32>),
)
    requires
        spec_step(spec_propagated(input, has_input), local, Some(s), s),
        spec_step(spec_propagated(input, has_input), local, Some(s), stepped),
    ensures
        stepped == s,
{
    law_transfer_step_is_a_function(spec_propagated(input, has_input), local, Some(s), s, stepped);
}

/// Without input the propagated shell is unknown and empty, whatever the input
/// shell holds.
pub proof fn law_no_input_propagates_unknown(input: (SalsaSemanticResolveStateSummary, Seq<u32>))
    ensures
        spec_propagated(input, false) == unknown_view(),
{
}

/// Narrowing by a list of narrows applies them left to right, each to what the
/// ones before it left: narrowing by `a + b` is narrowing by `a`, then by `b`;
/// narrowing by no narrow leaves the offsets as they are.
pub proof fn law_narrows_apply_in_turn(
    offsets: Seq<u32>,
    a: Seq<SalsaTypeNarrowSummary>,
    b: Seq<SalsaTypeNarrowSummary>,
    index: SalsaPropertyQueryIndex,
    nodes: Seq<SalsaDocTypeNodeSummary>,
    lowered: Seq<SalsaDocTypeLoweredNode>,
)
    ensures
        spec_narrow_type_offsets(offsets, Seq::empty(), index, nodes, lowered) == offsets,
        spec_narrow_type_offsets(offsets, a + b, index, nodes, lowered) == spec_narrow_type_offsets(
            spec_narrow_type_offsets(offsets, a, index, nodes, lowered),
            b,
            index,
            nodes,
            lowered,
        ),
    decreases b.len(),
{
    if b.len() == 0 {
        assert(a + b =~= a);
    } else {
        law_narrows_apply_in_turn(offsets, a, b.drop_last(), index, nodes, lowered);
        assert((a + b).drop_last() =~= a + b.drop_last());
        assert((a + b).last() == b.last());
    }
}

/// The law of a run from the first execution of components whose predecessors
/// are later components: each step completes a component not completed before,
/// whose predecessors all were; while fewer steps than components have been
/// taken, a component is ready; after one step per component every task is
/// completed and nothing is ready.
pub proof fn law_solver_run_completes_in_dependency_order(
    preds: Seq<Ids>,
    es: Seq<SalsaSemanticSolverExecutionSummary>,
    ms: Seq<usize>,
)
    requires
        preds_point_forward(preds),
        run_inv(preds, es[0]),
        es[0].completed_component_ids@.len() == 0,
        solver_trace(es, ms),
    ensures
        ms.len() <= preds.len(),
        forall|j: int| 0 <= j < ms.len() ==> (#[trigger] ms[j]) < preds.len() && !ms.take(j).contains(ms[j]),
        forall|j: int, i: int|
            #![trigger ms[j], preds[ms[j] as int][i]]
            0 <= j < ms.len() && 0 <= i < preds[ms[j] as int].len() ==> ms.take(j).contains(preds[ms[j] as int][i]),
        forall|j: int| 0 <= j < es.len() && j < preds.len() ==> (#[trigger] es[j]).ready_component_ids@.len() > 0,
        ms.len() == preds.len() ==> {
            &&& es[ms.len() as int].ready_component_ids@.len() == 0
            &&& forall|k: int|
                0 <= k < es[ms.len() as int].tasks@.len() ==> (#[trigger] es[ms.len() as int].tasks@[k]).state
                    == SalsaSemanticSolverTaskStateSummary::Completed
        },
{
    lemma_trace_prefix(preds, es, ms, ms.len() as int);
    assert forall|j: int| 0 <= j < ms.len() implies (#[trigger] ms[j]) < preds.len() && !ms.take(j).contains(ms[j]) by {
        lemma_trace_prefix(preds, es, ms, j);
        assert(is_min_id(es[j].ready_component_ids@, ms[j]) && spec_complete(es[j], ms[j], None, es[j + 1]));
        lemma_step_keeps_run_inv(preds, es[j], ms[j], es[j + 1]);
    }
    assert forall|j: int, i: int|
        #![trigger ms[j], preds[ms[j] as int][i]]
        0 <= j < ms.len() && 0 <= i < preds[ms[j] as int].len() implies ms.take(j).contains(preds[ms[j] as int][i]) by {
        lemma_trace_prefix(preds, es, ms, j);
        assert(is_min_id(es[j].ready_component_ids@, ms[j]) && spec_complete(es[j], ms[j], None, es[j + 1]));
        lemma_step_keeps_run_inv(preds, es[j], ms[j], es[j + 1]);
        assert(es[j].completed_component_ids@.contains(preds[ms[j] as int][i]));
    }
    assert forall|j: int| 0 <= j < es.len() && j < preds.len() implies (#[trigger] es[j]).ready_component_ids@.len() > 0 by {
        lemma_trace_prefix(preds, es, ms, j);
        let tv = exec_task_views(es[j].tasks@);
        lemma_open_count_zero(tv);
        let k = choose|k: int| 0 <= k < tv.len() && (#[trigger] tv[k]).1 != SalsaSemanticSolverTaskStateSummary::Completed;
        lemma_ready_exists(preds, es[j], k);
    }
    if ms.len() == preds.len() {
        let e = es[ms.len() as int];
        let tv = exec_task_views(e.tasks@);
        lemma_open_count_zero(tv);
        assert forall|k: int| 0 <= k < e.tasks@.len() implies (#[trigger] e.tasks@[k]).state
            == SalsaSemanticSolverTaskStateSummary::Completed by {
            assert(tv[k].1 == e.tasks@[k].state);
        }
        if e.ready_component_ids@.len() > 0 {
            let x = e.ready_component_ids@[0];
            assert(e.ready_component_ids@.contains(x));
            assert(tv[x as int].1 == SalsaSemanticSolverTaskStateSummary::Completed);
        }
    }
}

/// The law of a run of the solver over the components of a semantic graph:
/// starting from the first execution of its worklist and stepping as
/// `step_semantic_solver_execution` does, each step completes a component not
/// completed before, all of whose predecessors were completed by earlier
/// steps; while fewer steps than components have been taken a step can be
/// taken; after one step per component every task is completed and nothing is
/// ready, so the next step returns nothing.
pub proof fn law_solver_steps_complete_every_component_once(
    graph: SalsaSemanticGraphSummary,
    scc: SalsaSemanticGraphSccIndex,
    w: SalsaSemanticSolverWorklistSummary,
    es: Seq<SalsaSemanticSolverExecutionSummary>,
    ms: Seq<usize>,
)
    requires
        spec_scc_index(graph, scc),
        spec_worklist(scc, w),
        spec_initial_execution(w, es[0]),
        solver_trace(es, ms),
    ensures
        ms.len() <= scc.components@.len(),
        forall|j: int| 0 <= j < ms.len() ==> (#[trigger] ms[j]) < scc.components@.len() && !ms.take(j).contains(ms[j]),
        forall|j: int, p: usize|
            #![trigger ms[j], scc.components@[ms[j] as int].predecessor_component_ids@.contains(p)]
            0 <= j < ms.len() && scc.components@[ms[j] as int].predecessor_component_ids@.contains(p)
                ==> ms.take(j).contains(p),
        forall|j: int| 0 <= j < es.len() && j < scc.components@.len() ==> (#[trigger] es[j]).ready_component_ids@.len() > 0,
        ms.len() == scc.components@.len() ==> {
            &&& es[ms.len() as int].ready_component_ids@.len() == 0
            &&& forall|k: int|
                0 <= k < es[ms.len() as int].tasks@.len() ==> (#[trigger] es[ms.len() as int].tasks@[k]).state
                    == SalsaSemanticSolverTaskStateSummary::Completed
        },
{
    let preds = component_preds(scc.components@);
    lemma_scc_preds_point_forward(graph, scc);
    lemma_initial_run_inv(graph, scc, w, es[0]);
    law_solver_run_completes_in_dependency_order(preds, es, ms);
    assert forall|j: int, p: usize|
        #![trigger ms[j], scc.components@[ms[j] as int].predecessor_component_ids@.contains(p)]
        0 <= j < ms.len() && scc.components@[ms[j] as int].predecessor_component_ids@.contains(p)
            implies ms.take(j).contains(p) by {
        let q = scc.components@[ms[j] as int].predecessor_component_ids@;
        let i = choose|i: int| 0 <= i < q.len() && q[i] == p;
        assert(preds[ms[j] as int] == q);
        assert(ms.take(j).contains(preds[ms[j] as int][i]));
    }
}

} // verus!

verus! {

/// A component result is the merge of its predecessors' fixed points, then the
/// fixed point from there: where `merged` is what `merge_solver_value_shells`
/// gives on the fixed-point shells of the predecessor results, and `fixed` what a
/// first transfer step gives from the propagated merge and the component's local
/// shell, the result's input shell is `merged` and its fixed-point shell is `fixed`.
pub proof fn law_component_result_is_merge_then_fixed_point(
    component: crate::semantic_graph::SalsaSemanticGraphSccComponentSummary,
    ctx: crate::solver_component::SolverContext,
    preds: Seq<ResultView>,
    r: crate::solver_execution::SalsaSemanticSolverComponentResultSummary,
    merged: (SalsaSemanticResolveStateSummary, Seq<u32>),
    fixed: (SalsaSemanticResolveStateSummary, Seq<u32>),
)
    requires
        crate::solver_component::spec_component_result(component, ctx, preds, r),
        merged.0 == crate::semantic_solver::spec_strongest_state(
            crate::semantic_solver::shell_states(crate::solver_component::pred_fixedpoints(preds)),
        ),
        spec_is_candidate_union(crate::solver_component::pred_fixedpoints(preds), merged.1),
        spec_step(spec_propagated(merged, preds.len() > 0), r.local_value_shell@, None, fixed),
    ensures
        r.input_value_shell@ == merged,
        r.fixedpoint_value_shell@ == fixed,
{
    law_candidate_union_is_unique(crate::solver_component::pred_fixedpoints(preds), r.input_value_shell.candidate_type_offsets@, merged.1);
    assert(r.input_value_shell@ == merged);
    law_transfer_step_is_a_function(spec_propagated(merged, preds.len() > 0), r.local_value_shell@, None, r.fixedpoint_value_shell@, fixed);
}

/// A chase never follows a local twice: the candidates of a local that the
/// chase has followed already are none, and a local no assignment of the file
/// assigns, not yet followed, has its declaration's candidate alone.
pub proof fn law_chase_follows_each_local_once(
    c: crate::program_point::PointInputs,
    d: u32,
    visited: Set<u32>,
)
    ensures
        visited.contains(d) ==> crate::program_point::source_cands(c, d, visited).is_none(),
        !visited.contains(d) && !crate::program_point::assigned_decls(c.asg).contains(d) ==> crate::program_point::source_cands(c, d, visited) == match crate::type_info::spec_find_decl_type_info(c.decls, d) {
            Some(i) => Some(seq![crate::type_candidates::decl_candidate_view(i)]),
            None => None,
        },
{
    if !visited.contains(d) && !crate::program_point::assigned_decls(c.asg).contains(d) {
        match crate::type_info::spec_find_decl_type_info(c.decls, d) {
            Some(i) => {
                assert(seq![crate::type_candidates::decl_candidate_view(i)].len() > 0);
            },
            None => {},
        }
    }
}

} // verus!

verus! {

/// Keeping only the rows that fit the other results of a call never adds a doc
/// type at a result: the doc types the kept rows give at a position are among
/// those all the rows give there.
pub proof fn law_fitting_rows_only_narrow(rows: Seq<Seq<u32>>, keep: spec_fn(Seq<u32>) -> bool, slot: int)
    ensures
        crate::program_point::slot_values(rows.filter(keep), slot).subset_of(crate::program_point::slot_values(rows, slot)),
{
    let f = rows.filter(keep);
    assert forall|x: u32|
        crate::program_point::slot_values(f, slot).contains(x) implies crate::program_point::slot_values(rows, slot).contains(x) by {
        let i = choose|i: int| 0 <= i < f.len() && slot < (#[trigger] f[i]).len() && f[i][slot] == x;
        assert(f.contains(f[i]));
        rows.lemma_filter_contains_rev(keep, f[i]);
        let j = choose|j: int| 0 <= j < rows.len() && rows[j] == f[i];
        assert(slot < rows[j].len() && rows[j][slot] == x);
    }
}

/// A `local` statement whose declaration carries a type of its own gives that
/// declaration's candidate, whatever local it copies, where its value is no
/// resolved call.
pub proof fn law_declared_local_keeps_its_type(
    c: crate::program_point::PointInputs,
    a: crate::assignments::SalsaLocalAssignmentSummary,
    visited: Set<u32>,
    info: crate::type_info::SalsaDeclTypeInfoSummary,
)
    requires
        a.is_local_declaration,
        crate::program_point::call_cands(c, a).is_none(),
        crate::type_info::spec_find_decl_type_info(c.decls, a.decl_id) == Some(info),
        !crate::program_point::is_untyped(crate::type_candidates::decl_candidate_view(info)),
    ensures
        crate::program_point::assignment_cands(c, a, visited) == seq![crate::type_candidates::decl_candidate_view(info)],
{
}

} // verus!

verus! {

/// The node of a use covers the offset (its end excluded).
pub open spec fn site_covers<T: crate::uses::UseSite>(u: T, offset: u32) -> bool {
    u.site_syntax_id().start_offset <= offset && offset < u.site_syntax_id().end_offset
}

/// The length of the text a use's node covers.
pub open spec fn site_span<T: crate::uses::UseSite>(u: T) -> int {
    u.site_syntax_id().end_offset - u.site_syntax_id().start_offset
}

proof fn lemma_tightest_covering<T: crate::uses::UseSite>(s: Seq<T>, offset: u32)
    ensures
        -1 <= crate::uses::tightest_covering_index(s, offset) < s.len(),
        crate::uses::tightest_covering_index(s, offset) >= 0 ==> site_covers(s[crate::uses::tightest_covering_index(s, offset)], offset),
        crate::uses::tightest_covering_index(s, offset) == -1 ==> forall|j: int| 0 <= j < s.len() ==> !site_covers(#[trigger] s[j], offset),
        crate::uses::tightest_covering_index(s, offset) >= 0 ==> forall|j: int|
            0 <= j < s.len() && site_covers(#[trigger] s[j], offset) ==> {
                let t = s[crate::uses::tightest_covering_index(s, offset)];
                &&& site_span(t) <= site_span(s[j])
                &&& (site_span(t) == site_span(s[j]) ==> t.site_offset() <= s[j].site_offset())
                &&& (j < crate::uses::tightest_covering_index(s, offset) ==> site_span(t) < site_span(s[j]) || (site_span(t)
                    == site_span(s[j]) && t.site_offset() < s[j].site_offset()))
            },
    decreases s.len(),
{
    if s.len() > 0 {
        let p = s.drop_last();
        lemma_tightest_covering(p, offset);
        let b = crate::uses::tightest_covering_index(p, offset);
        let t = crate::uses::tightest_covering_index(s, offset);
        let n = s.len() - 1;
        assert forall|j: int| 0 <= j < p.len() implies #[trigger] p[j] == s[j] by {}
        if t == -1 {
            assert forall|j: int| 0 <= j < s.len() implies !site_covers(#[trigger] s[j], offset) by {
                if j < n { assert(p[j] == s[j]); }
            }
        } else {
            assert forall|j: int| 0 <= j < s.len() && site_covers(#[trigger] s[j], offset) implies {
                let tt = s[t];
                &&& site_span(tt) <= site_span(s[j])
                &&& (site_span(tt) == site_span(s[j]) ==> tt.site_offset() <= s[j].site_offset())
                &&& (j < t ==> site_span(tt) < site_span(s[j]) || (site_span(tt) == site_span(s[j]) && tt.site_offset()
                    < s[j].site_offset()))
            } by {
                if j < n {
                    assert(p[j] == s[j]);
                    if t == n && b >= 0 {
                        assert(p[b] == s[b]);
                    }
                } else if t != n {
                    assert(p[b] == s[b]);
                }
            }
        }
    }
}

/// The use at an offset: the first placed exactly there where one is; else a use
/// whose node covers the offset, no covering use having a shorter node nor one
/// as short placed earlier, and of equally tight ones the first listed; none
/// where no use covers it.
pub proof fn law_use_at_offset_is_exact_or_tightest<T: crate::uses::UseSite>(s: Seq<T>, offset: u32)
    ensures
        -1 <= crate::uses::use_at_index(s, offset) < s.len(),
        (exists|j: int| 0 <= j < s.len() && (#[trigger] s[j]).site_offset() == offset) ==> {
            let r = crate::uses::use_at_index(s, offset);
            &&& r >= 0
            &&& s[r].site_offset() == offset
            &&& forall|j: int| 0 <= j < r ==> (#[trigger] s[j]).site_offset() != offset
        },
        (forall|j: int| 0 <= j < s.len() ==> (#[trigger] s[j]).site_offset() != offset) ==> {
            let r = crate::uses::use_at_index(s, offset);
            &&& (r == -1 <==> forall|j: int| 0 <= j < s.len() ==> !site_covers(#[trigger] s[j], offset))
            &&& r >= 0 ==> site_covers(s[r], offset)
            &&& r >= 0 ==> forall|j: int|
                0 <= j < s.len() && site_covers(#[trigger] s[j], offset) ==> site_span(s[r]) <= site_span(s[j]) && (site_span(s[r])
                    == site_span(s[j]) ==> s[r].site_offset() <= s[j].site_offset())
            &&& r >= 0 ==> forall|j: int|
                0 <= j < r && site_covers(#[trigger] s[j], offset) ==> site_span(s[r]) < site_span(s[j]) || (site_span(s[r])
                    == site_span(s[j]) && s[r].site_offset() < s[j].site_offset())
        },
{
    crate::uses::lemma_first_use_at_index(s, offset);
    lemma_tightest_covering(s, offset);
}

} // verus!

verus! {

/// Condition `d` is `c` or one that `c` enters, directly or through at most `n`
/// more `ConditionEnter` edges.
pub open spec fn enters_to(edges: Seq<SalsaFlowEdgeSummary>, c: u32, d: u32, n: nat) -> bool
    decreases n,
{
    c == d || (n > 0 && exists|k: int|
        0 <= k < edges.len() && (#[trigger] edges[k]).kind == crate::flow::SalsaFlowEdgeKindSummary::ConditionEnter
            && edges[k].from == SalsaFlowNodeRefSummary::Condition(c) && match edges[k].to {
            SalsaFlowNodeRefSummary::Condition(m) => enters_to(edges, m, d, (n - 1) as nat),
            _ => false,
        })
}

proof fn lemma_successors_by_kind_edge(
    edges: Seq<SalsaFlowEdgeSummary>,
    node: SalsaFlowNodeRefSummary,
    kind: crate::flow::SalsaFlowEdgeKindSummary,
    x: SalsaFlowNodeRefSummary,
)
    requires
        crate::flow_graph::spec_successors_by_kind(edges, node, kind).contains(x),
    ensures
        exists|k: int| 0 <= k < edges.len() && (#[trigger] edges[k]).from == node && edges[k].kind == kind && edges[k].to == x,
    decreases edges.len(),
{
    let rest = crate::flow_graph::spec_successors_by_kind(edges.drop_last(), node, kind);
    let l = edges.last();
    if l.from == node && l.kind == kind && x == l.to {
        assert(edges[edges.len() - 1] == l);
    } else {
        if l.from == node && l.kind == kind {
            let i = choose|i: int| 0 <= i < rest.push(l.to).len() && rest.push(l.to)[i] == x;
            assert(i < rest.len());
            assert(rest[i] == x);
        }
        assert(rest.contains(x));
        lemma_successors_by_kind_edge(edges.drop_last(), node, kind, x);
        let k = choose|k: int|
            0 <= k < edges.drop_last().len() && (#[trigger] edges.drop_last()[k]).from == node && edges.drop_last()[k].kind == kind
                && edges.drop_last()[k].to == x;
        assert(edges[k] == edges.drop_last()[k]);
    }
}

proof fn lemma_entered_targets_from_child(
    edges: Seq<SalsaFlowEdgeSummary>,
    enters: Seq<SalsaFlowNodeRefSummary>,
    kind: crate::flow::SalsaFlowEdgeKindSummary,
    fuel: nat,
    x: SalsaFlowNodeRefSummary,
)
    requires
        crate::flow_graph::entered_targets_fuel(edges, enters, kind, fuel).contains(x),
    ensures
        exists|i: int, child: u32|
            #![trigger enters[i], crate::flow_graph::condition_targets_fuel(edges, child, kind, fuel)]
            0 <= i < enters.len() && enters[i] == SalsaFlowNodeRefSummary::Condition(child)
                && crate::flow_graph::condition_targets_fuel(edges, child, kind, fuel).contains(x),
    decreases enters.len(),
{
    let a = crate::flow_graph::entered_targets_fuel(edges, enters.drop_last(), kind, fuel);
    let b = match enters.last() {
        SalsaFlowNodeRefSummary::Condition(child) => crate::flow_graph::condition_targets_fuel(edges, child, kind, fuel),
        _ => Seq::<SalsaFlowNodeRefSummary>::empty(),
    };
    assert(crate::flow_graph::entered_targets_fuel(edges, enters, kind, fuel) == a + b);
    let k = choose|k: int| 0 <= k < (a + b).len() && (a + b)[k] == x;
    if k < a.len() {
        assert(a[k] == x);
        lemma_entered_targets_from_child(edges, enters.drop_last(), kind, fuel, x);
        let (i, child) = choose|i: int, child: u32|
            #![trigger enters.drop_last()[i], crate::flow_graph::condition_targets_fuel(edges, child, kind, fuel)]
            0 <= i < enters.drop_last().len() && enters.drop_last()[i] == SalsaFlowNodeRefSummary::Condition(child)
                && crate::flow_graph::condition_targets_fuel(edges, child, kind, fuel).contains(x);
        assert(enters[i] == enters.drop_last()[i]);
    } else {
        assert(b[k - a.len()] == x);
        match enters.last() {
            SalsaFlowNodeRefSummary::Condition(child) => {
                assert(enters[enters.len() - 1] == SalsaFlowNodeRefSummary::Condition(child));
                assert(b.contains(x));
            },
            _ => {
                assert(false);
            },
        }
    }
}

/// Every target a condition reports for an outcome is where an edge of that
/// outcome leads from the condition or from a condition it enters: a true target
/// is the end of a `ConditionTrue` edge, a false target the end of a
/// `ConditionFalse` edge, leaving `c` or a condition reached from `c` through
/// `ConditionEnter` edges.
pub proof fn law_condition_targets_follow_outcome_edges(
    edges: Seq<SalsaFlowEdgeSummary>,
    c: u32,
    kind: crate::flow::SalsaFlowEdgeKindSummary,
    fuel: nat,
    x: SalsaFlowNodeRefSummary,
)
    requires
        crate::flow_graph::condition_targets_fuel(edges, c, kind, fuel).contains(x),
    ensures
        exists|d: u32, k: int|
            #![trigger edges[k], enters_to(edges, c, d, fuel)]
            0 <= k < edges.len() && edges[k].kind == kind && edges[k].from == SalsaFlowNodeRefSummary::Condition(d)
                && edges[k].to == x && enters_to(edges, c, d, fuel),
    decreases fuel,
{
    let node = SalsaFlowNodeRefSummary::Condition(c);
    let direct = crate::flow_graph::spec_successors_by_kind(edges, node, kind);
    if direct.len() > 0 {
        crate::flow_graph::lemma_unique_props(direct);
        lemma_successors_by_kind_edge(edges, node, kind, x);
        let k = choose|k: int| 0 <= k < edges.len() && (#[trigger] edges[k]).from == node && edges[k].kind == kind && edges[k].to == x;
        assert(enters_to(edges, c, c, fuel));
    } else {
        let enters = crate::flow_graph::spec_successors_by_kind(edges, node, crate::flow::SalsaFlowEdgeKindSummary::ConditionEnter);
        let ent = crate::flow_graph::entered_targets_fuel(edges, enters, kind, (fuel - 1) as nat);
        crate::flow_graph::lemma_unique_props(ent);
        lemma_entered_targets_from_child(edges, enters, kind, (fuel - 1) as nat, x);
        let (i, child) = choose|i: int, child: u32|
            #![trigger enters[i], crate::flow_graph::condition_targets_fuel(edges, child, kind, (fuel - 1) as nat)]
            0 <= i < enters.len() && enters[i] == SalsaFlowNodeRefSummary::Condition(child)
                && crate::flow_graph::condition_targets_fuel(edges, child, kind, (fuel - 1) as nat).contains(x);
        assert(enters.contains(SalsaFlowNodeRefSummary::Condition(child)));
        lemma_successors_by_kind_edge(edges, node, crate::flow::SalsaFlowEdgeKindSummary::ConditionEnter, SalsaFlowNodeRefSummary::Condition(child));
        let ke = choose|k: int|
            0 <= k < edges.len() && (#[trigger] edges[k]).from == node && edges[k].kind == crate::flow::SalsaFlowEdgeKindSummary::ConditionEnter
                && edges[k].to == SalsaFlowNodeRefSummary::Condition(child);
        law_condition_targets_follow_outcome_edges(edges, child, kind, (fuel - 1) as nat, x);
        let (d, k) = choose|d: u32, k: int|
            #![trigger edges[k], enters_to(edges, child, d, (fuel - 1) as nat)]
            0 <= k < edges.len() && edges[k].kind == kind && edges[k].from == SalsaFlowNodeRefSummary::Condition(d)
                && edges[k].to == x && enters_to(edges, child, d, (fuel - 1) as nat);
        assert(enters_to(edges, c, d, fuel));
    }
}

} // verus!

verus! {

/// A member target has exactly a path: the same root name (none for the
/// environment), the same owner segments in order, and the same member name.
pub open spec fn target_has_path(t: crate::members::MemberTargetView, p: crate::members::MemberPathView) -> bool {
    &&& t.owner_segments == p.owner_segments
    &&& t.member_name == p.member_name
    &&& match t.root {
        crate::members::MemberRootView::GlobalEnv => p.root.is_none(),
        crate::members::MemberRootView::GlobalName(n) => p.root == Some(n),
        crate::members::MemberRootView::LocalDecl(n, _) => p.root == Some(n),
    }
}

proof fn lemma_target_path_exact(t: crate::members::MemberTargetView, p: crate::members::MemberPathView)
    ensures
        (crate::members::spec_member_target_path(t) == p) <==> target_has_path(t, p),
{
    let q = crate::members::spec_member_target_path(t);
    if target_has_path(t, p) {
        assert(q.owner_segments == p.owner_segments);
        assert(q.member_name == p.member_name);
        assert(q.root == p.root);
    }
}

/// A member export resolves to the first member, in order, whose target has
/// exactly the exported path (root, owner segments and member name); where no
/// member has that path, to nothing. (Member handles are `u32`, so the members
/// are taken to fit them.)
pub proof fn law_member_export_has_exact_path(index: crate::module::ModuleResolveView, path: crate::members::MemberPathView)
    requires
        index.members.len() <= u32::MAX,
    ensures
        match crate::module::spec_resolve_module_export_in_index(index, crate::module::ExportTargetView::Member(path)) {
            Some(crate::module::ModuleExportView::Member(m)) => {
                &&& target_has_path(m.target, path)
                &&& exists|i: int|
                    0 <= i < index.members.len() && #[trigger] index.members[i] == m && forall|j: int|
                        0 <= j < i ==> !target_has_path(#[trigger] index.members[j].target, path)
            },
            Some(_) => false,
            None => forall|j: int| 0 <= j < index.members.len() ==> !target_has_path(#[trigger] index.members[j].target, path),
        },
{
    crate::module::lemma_first_member_index_with_path(index.members, path);
    let i = crate::module::first_member_index_with_path(index.members, path);
    assert forall|j: int| 0 <= j < index.members.len() implies (crate::members::spec_member_target_path(
        #[trigger] index.members[j].target,
    ) == path) <==> target_has_path(index.members[j].target, path) by {
        lemma_target_path_exact(index.members[j].target, path);
    }
    if i >= 0 {
        assert((i as u32) as int == i);
        let m = index.members[i];
        assert(crate::module::spec_member_at_handle(index, crate::module::SalsaModuleMemberHandle(i as u32)) == Some(m));
        assert(target_has_path(m.target, path));
        assert(forall|j: int| 0 <= j < i ==> !target_has_path(#[trigger] index.members[j].target, path));
    }
}

} // verus!

verus! {

/// The node under `x` may hold a truthy value: it does not lower to the literal
/// `false` or `nil`, nor to the name `nil`.
pub open spec fn may_be_truthy(nodes: Seq<SalsaDocTypeNodeSummary>, lowered: Seq<SalsaDocTypeLoweredNode>, x: u32) -> bool {
    match crate::narrow::resolved_lowered(nodes, lowered, x) {
        Some(q) => match q.kind {
            crate::doc_type::SalsaDocTypeLoweredKind::Literal { text } => text@ != "false"@ && text@ != "nil"@,
            crate::doc_type::SalsaDocTypeLoweredKind::Name { name } => name@ != "nil"@,
            _ => true,
        },
        None => true,
    }
}

/// `x` is the inner type of a nullable doc type (`T?`), which truthy narrowing
/// takes as it stands.
pub open spec fn nullable_inner(lowered: Seq<SalsaDocTypeLoweredNode>, x: u32) -> bool {
    exists|i: int|
        0 <= i < lowered.len() && (#[trigger] lowered[i]).kind == crate::doc_type::SalsaDocTypeLoweredKind::Nullable {
            inner_type: crate::signature_model::SalsaDocTypeRef::Node(x),
        }
}

proof fn lemma_concat_contains<A>(a: Seq<A>, b: Seq<A>, x: A)
    requires
        (a + b).contains(x),
    ensures
        a.contains(x) || b.contains(x),
{
    let k = choose|k: int| 0 <= k < (a + b).len() && (a + b)[k] == x;
    if k < a.len() {
        assert(a[k] == x);
    } else {
        assert(b[k - a.len()] == x);
    }
}

proof fn lemma_truthy_keeps(
    nodes: Seq<SalsaDocTypeNodeSummary>,
    lowered: Seq<SalsaDocTypeLoweredNode>,
    k: u32,
    visited: Set<u32>,
)
    ensures
        forall|x: u32|
            #[trigger] crate::narrow::spec_narrow_lowered(crate::narrow::LoweredNarrowSpec::Truthy, nodes, lowered, k, visited).0.contains(x)
                ==> may_be_truthy(nodes, lowered, x) || nullable_inner(lowered, x),
    decreases crate::narrow::unvisited(nodes, visited), 0nat,
{
    let mode = crate::narrow::LoweredNarrowSpec::Truthy;
    let r = crate::narrow::spec_narrow_lowered(mode, nodes, lowered, k, visited).0;
    if !visited.contains(k) {
        match crate::narrow::resolved_lowered(nodes, lowered, k) {
            None => {},
            Some(q) => {
                match q.kind {
                    crate::doc_type::SalsaDocTypeLoweredKind::Nullable { inner_type } => {
                        crate::lookup::lemma_first_index_with_key(lowered, k);
                        let i = crate::lookup::first_index_with_key(lowered, k);
                        assert(lowered[i] == q);
                        let one = seq![inner_type];
                        assert(one.drop_last() =~= Seq::<crate::signature_model::SalsaDocTypeRef>::empty());
                        assert(crate::narrow::ref_keys(one.drop_last()) =~= Seq::<u32>::empty());
                        assert forall|x: u32| r.contains(x) implies nullable_inner(lowered, x) by {
                            assert(r[0] == x);
                        }
                    },
                    crate::doc_type::SalsaDocTypeLoweredKind::Union { item_types } => {
                        crate::narrow::lemma_unvisited_insert(nodes, visited, k);
                        lemma_truthy_keeps_refs(nodes, lowered, k, item_types@, visited.insert(k));
                        assert(r == crate::narrow::spec_narrow_lowered_refs(mode, nodes, lowered, k, item_types@, visited.insert(k)).0);
                    },
                    crate::doc_type::SalsaDocTypeLoweredKind::MultiLineUnion { item_types } => {
                        crate::narrow::lemma_unvisited_insert(nodes, visited, k);
                        lemma_truthy_keeps_refs(nodes, lowered, k, item_types@, visited.insert(k));
                        assert(r == crate::narrow::spec_narrow_lowered_refs(mode, nodes, lowered, k, item_types@, visited.insert(k)).0);
                    },
                    _ => {
                        assert forall|x: u32| r.contains(x) implies may_be_truthy(nodes, lowered, x) by {
                            assert(r[0] == x);
                        }
                    },
                }
            },
        }
    } else {
        assert(r =~= Seq::<u32>::empty());
    }
}

proof fn lemma_truthy_keeps_refs(
    nodes: Seq<SalsaDocTypeNodeSummary>,
    lowered: Seq<SalsaDocTypeLoweredNode>,
    outer: u32,
    refs: Seq<crate::signature_model::SalsaDocTypeRef>,
    visited: Set<u32>,
)
    ensures
        forall|x: u32|
            #[trigger] crate::narrow::spec_narrow_lowered_refs(crate::narrow::LoweredNarrowSpec::Truthy, nodes, lowered, outer, refs, visited).0.contains(x)
                ==> may_be_truthy(nodes, lowered, x) || nullable_inner(lowered, x),
    decreases crate::narrow::unvisited(nodes, visited), refs.len(),
{
    let mode = crate::narrow::LoweredNarrowSpec::Truthy;
    if refs.len() > 0 {
        let first = match refs[0] {
            crate::signature_model::SalsaDocTypeRef::Node(k) => crate::narrow::spec_narrow_lowered(mode, nodes, lowered, k, visited),
            crate::signature_model::SalsaDocTypeRef::Incomplete => (crate::narrow::keep_if(mode is FieldLiteral, outer), visited),
        };
        match refs[0] {
            crate::signature_model::SalsaDocTypeRef::Node(k) => lemma_truthy_keeps(nodes, lowered, k, visited),
            crate::signature_model::SalsaDocTypeRef::Incomplete => {},
        }
        let after = first.1.union(visited);
        crate::narrow::lemma_unvisited_grow(nodes, visited, after);
        lemma_truthy_keeps_refs(nodes, lowered, outer, refs.drop_first(), after);
        let rest = crate::narrow::spec_narrow_lowered_refs(mode, nodes, lowered, outer, refs.drop_first(), after);
        assert forall|x: u32|
            #[trigger] crate::narrow::spec_narrow_lowered_refs(mode, nodes, lowered, outer, refs, visited).0.contains(x) implies may_be_truthy(
            nodes,
            lowered,
            x,
        ) || nullable_inner(lowered, x) by {
            lemma_concat_contains(first.0, rest.0, x);
            if first.0.contains(x) {
                assert(first.0 != Seq::<u32>::empty());
            }
        }
    }
}

/// Narrowing to truthy values never keeps a doc type that lowers to the literal
/// `false` or `nil`, nor the name `nil`, but where it is the inner type of a
/// nullable type (`T?`), which the narrowing takes as written.
pub proof fn law_truthy_narrowing_drops_falsy(
    nodes: Seq<SalsaDocTypeNodeSummary>,
    lowered: Seq<SalsaDocTypeLoweredNode>,
    k: u32,
    visited: Set<u32>,
    x: u32,
)
    requires
        crate::narrow::spec_narrow_lowered(crate::narrow::LoweredNarrowSpec::Truthy, nodes, lowered, k, visited).0.contains(x),
    ensures
        may_be_truthy(nodes, lowered, x) || nullable_inner(lowered, x),
{
    lemma_truthy_keeps(nodes, lowered, k, visited);
}

} // verus!

verus! {

/// The edges of a plain condition send its true outcome to `t` and its false
/// outcome to `f`, and nothing else.
pub proof fn law_plain_condition_edges(
    flow: crate::flow_model::SalsaFlowSummary,
    c: u32,
    t: SalsaFlowNodeRefSummary,
    f: SalsaFlowNodeRefSummary,
    fuel: nat,
)
    requires
        fuel > 0,
        crate::flow_model::spec_find_condition(flow, c) matches Some(cond) && cond.kind == crate::flow_model::SalsaFlowConditionKindSummary::Expr,
    ensures
        crate::flow::condition_edges_fuel(flow, c, t, f, fuel) == seq![
            (SalsaFlowEdgeSummary { kind: crate::flow::SalsaFlowEdgeKindSummary::ConditionTrue, from: SalsaFlowNodeRefSummary::Condition(c), to: t }),
            (SalsaFlowEdgeSummary { kind: crate::flow::SalsaFlowEdgeKindSummary::ConditionFalse, from: SalsaFlowNodeRefSummary::Condition(c), to: f }),
        ],
{
}

/// Short-circuit wiring: in `l or r` with outcome targets (t, f), a plain left
/// operand sends its true outcome to `t` (the right operand is skipped) and its
/// false outcome to the right operand; in `l and r` it sends its true outcome to
/// the right operand and its false outcome to `f`. The condition enters its left
/// operand first.
pub proof fn law_short_circuit_condition_edges(
    flow: crate::flow_model::SalsaFlowSummary,
    c: u32,
    l: u32,
    r: u32,
    t: SalsaFlowNodeRefSummary,
    f: SalsaFlowNodeRefSummary,
    fuel: nat,
)
    requires
        fuel > 1,
        crate::flow_model::spec_find_condition(flow, c) matches Some(cond) && cond.left_condition_offset == Some(l)
            && cond.right_condition_offset == Some(r) && cond.kind != crate::flow_model::SalsaFlowConditionKindSummary::Expr,
        crate::flow_model::spec_find_condition(flow, l) matches Some(lc) && lc.kind == crate::flow_model::SalsaFlowConditionKindSummary::Expr,
    ensures
        ({
            let e = crate::flow::condition_edges_fuel(flow, c, t, f, fuel);
            let cond = crate::flow_model::spec_find_condition(flow, c).unwrap();
            let left = SalsaFlowNodeRefSummary::Condition(l);
            let right = SalsaFlowNodeRefSummary::Condition(r);
            let (on_true, on_false) = if cond.kind == crate::flow_model::SalsaFlowConditionKindSummary::Or {
                (t, right)
            } else {
                (right, f)
            };
            &&& e[0] == (SalsaFlowEdgeSummary { kind: crate::flow::SalsaFlowEdgeKindSummary::ConditionEnter, from: SalsaFlowNodeRefSummary::Condition(c), to: left })
            &&& e.contains((SalsaFlowEdgeSummary { kind: crate::flow::SalsaFlowEdgeKindSummary::ConditionTrue, from: left, to: on_true }))
            &&& e.contains((SalsaFlowEdgeSummary { kind: crate::flow::SalsaFlowEdgeKindSummary::ConditionFalse, from: left, to: on_false }))
        }),
{
    let e = crate::flow::condition_edges_fuel(flow, c, t, f, fuel);
    let cond = crate::flow_model::spec_find_condition(flow, c).unwrap();
    let left = SalsaFlowNodeRefSummary::Condition(l);
    let right = SalsaFlowNodeRefSummary::Condition(r);
    let (on_true, on_false) = if cond.kind == crate::flow_model::SalsaFlowConditionKindSummary::Or {
        (t, right)
    } else {
        (right, f)
    };
    let le = crate::flow::condition_edges_fuel(flow, l, on_true, on_false, (fuel - 1) as nat);
    let re = crate::flow::condition_edges_fuel(flow, r, t, f, (fuel - 1) as nat);
    law_plain_condition_edges(flow, l, on_true, on_false, (fuel - 1) as nat);
    let enter = SalsaFlowEdgeSummary { kind: crate::flow::SalsaFlowEdgeKindSummary::ConditionEnter, from: SalsaFlowNodeRefSummary::Condition(c), to: left };
    assert(e == seq![enter] + le + re);
    assert(e[1] == le[0]);
    assert(e[2] == le[1]);
}

} // verus!

verus! {

/// What a falsey or type-guard narrowing may keep of the node under `x`: for
/// falsey, a node that lowers to the name `nil`, the literal `false` or `nil`, or
/// a nullable type; for a guard on type `g`, a node named `g`, or one it cannot
/// look into.
pub open spec fn guard_may_keep(
    mode: crate::narrow::LoweredNarrowSpec,
    nodes: Seq<SalsaDocTypeNodeSummary>,
    lowered: Seq<SalsaDocTypeLoweredNode>,
    x: u32,
) -> bool {
    match mode {
        crate::narrow::LoweredNarrowSpec::Falsey => match crate::narrow::resolved_lowered(nodes, lowered, x) {
            Some(q) => match q.kind {
                crate::doc_type::SalsaDocTypeLoweredKind::Name { name } => name@ == "nil"@,
                crate::doc_type::SalsaDocTypeLoweredKind::Literal { text } => text@ == "false"@ || text@ == "nil"@,
                crate::doc_type::SalsaDocTypeLoweredKind::Nullable { .. } => true,
                _ => false,
            },
            None => false,
        },
        crate::narrow::LoweredNarrowSpec::TypeGuard(g) => match crate::narrow::resolved_lowered(nodes, lowered, x) {
            Some(q) => match q.kind {
                crate::doc_type::SalsaDocTypeLoweredKind::Name { name } => name@ == g,
                _ => false,
            },
            None => true,
        },
        _ => true,
    }
}

proof fn lemma_guard_keeps(
    mode: crate::narrow::LoweredNarrowSpec,
    nodes: Seq<SalsaDocTypeNodeSummary>,
    lowered: Seq<SalsaDocTypeLoweredNode>,
    k: u32,
    visited: Set<u32>,
)
    requires
        mode is Falsey || mode is TypeGuard,
    ensures
        forall|x: u32|
            #[trigger] crate::narrow::spec_narrow_lowered(mode, nodes, lowered, k, visited).0.contains(x) ==> guard_may_keep(
                mode,
                nodes,
                lowered,
                x,
            ),
    decreases crate::narrow::unvisited(nodes, visited), 0nat,
{
    let r = crate::narrow::spec_narrow_lowered(mode, nodes, lowered, k, visited).0;
    if !visited.contains(k) {
        match crate::narrow::resolved_lowered(nodes, lowered, k) {
            None => {
                assert forall|x: u32| r.contains(x) implies guard_may_keep(mode, nodes, lowered, x) by {
                    assert(r[0] == x);
                }
            },
            Some(q) => {
                match q.kind {
                    crate::doc_type::SalsaDocTypeLoweredKind::Nullable { inner_type } => {
                        if mode is TypeGuard {
                            crate::narrow::lemma_unvisited_insert(nodes, visited, k);
                            lemma_guard_keeps_refs(mode, nodes, lowered, k, seq![inner_type], visited.insert(k));
                            assert(r == crate::narrow::spec_narrow_lowered_refs(mode, nodes, lowered, k, seq![inner_type], visited.insert(k)).0);
                        } else {
                            assert forall|x: u32| r.contains(x) implies guard_may_keep(mode, nodes, lowered, x) by {
                                assert(r[0] == x);
                            }
                        }
                    },
                    crate::doc_type::SalsaDocTypeLoweredKind::Union { item_types } => {
                        crate::narrow::lemma_unvisited_insert(nodes, visited, k);
                        lemma_guard_keeps_refs(mode, nodes, lowered, k, item_types@, visited.insert(k));
                        assert(r == crate::narrow::spec_narrow_lowered_refs(mode, nodes, lowered, k, item_types@, visited.insert(k)).0);
                    },
                    crate::doc_type::SalsaDocTypeLoweredKind::MultiLineUnion { item_types } => {
                        crate::narrow::lemma_unvisited_insert(nodes, visited, k);
                        lemma_guard_keeps_refs(mode, nodes, lowered, k, item_types@, visited.insert(k));
                        assert(r == crate::narrow::spec_narrow_lowered_refs(mode, nodes, lowered, k, item_types@, visited.insert(k)).0);
                    },
                    _ => {
                        assert forall|x: u32| r.contains(x) implies guard_may_keep(mode, nodes, lowered, x) by {
                            assert(r[0] == x);
                        }
                    },
                }
            },
        }
    } else {
        assert(r =~= Seq::<u32>::empty());
    }
}

proof fn lemma_guard_keeps_refs(
    mode: crate::narrow::LoweredNarrowSpec,
    nodes: Seq<SalsaDocTypeNodeSummary>,
    lowered: Seq<SalsaDocTypeLoweredNode>,
    outer: u32,
    refs: Seq<crate::signature_model::SalsaDocTypeRef>,
    visited: Set<u32>,
)
    requires
        mode is Falsey || mode is TypeGuard,
    ensures
        forall|x: u32|
            #[trigger] crate::narrow::spec_narrow_lowered_refs(mode, nodes, lowered, outer, refs, visited).0.contains(x)
                ==> guard_may_keep(mode, nodes, lowered, x),
    decreases crate::narrow::unvisited(nodes, visited), refs.len(),
{
    if refs.len() > 0 {
        let first = match refs[0] {
            crate::signature_model::SalsaDocTypeRef::Node(k) => crate::narrow::spec_narrow_lowered(mode, nodes, lowered, k, visited),
            crate::signature_model::SalsaDocTypeRef::Incomplete => (crate::narrow::keep_if(mode is FieldLiteral, outer), visited),
        };
        match refs[0] {
            crate::signature_model::SalsaDocTypeRef::Node(k) => lemma_guard_keeps(mode, nodes, lowered, k, visited),
            crate::signature_model::SalsaDocTypeRef::Incomplete => {},
        }
        let after = first.1.union(visited);
        crate::narrow::lemma_unvisited_grow(nodes, visited, after);
        lemma_guard_keeps_refs(mode, nodes, lowered, outer, refs.drop_first(), after);
        let rest = crate::narrow::spec_narrow_lowered_refs(mode, nodes, lowered, outer, refs.drop_first(), after);
        assert forall|x: u32|
            #[trigger] crate::narrow::spec_narrow_lowered_refs(mode, nodes, lowered, outer, refs, visited).0.contains(x) implies guard_may_keep(
            mode,
            nodes,
            lowered,
            x,
        ) by {
            lemma_concat_contains(first.0, rest.0, x);
            if first.0.contains(x) {
                assert(first.0 != Seq::<u32>::empty());
            }
        }
    }
}

/// Narrowing to falsey values keeps only doc types that lower to the name `nil`,
/// the literal `false` or `nil`, or a nullable type; narrowing by a type guard on
/// `g` keeps only doc types named `g`, or ones it cannot look into.
pub proof fn law_falsey_and_guard_narrowing_keep_matches(
    mode: crate::narrow::LoweredNarrowSpec,
    nodes: Seq<SalsaDocTypeNodeSummary>,
    lowered: Seq<SalsaDocTypeLoweredNode>,
    k: u32,
    visited: Set<u32>,
    x: u32,
)
    requires
        mode is Falsey || mode is TypeGuard,
        crate::narrow::spec_narrow_lowered(mode, nodes, lowered, k, visited).0.contains(x),
    ensures
        guard_may_keep(mode, nodes, lowered, x),
{
    lemma_guard_keeps(mode, nodes, lowered, k, visited);
}

} // verus!

verus! {

/// In `l or r` and in `l and r` with outcome targets (t, f), a plain right
/// operand decides: its true outcome goes to `t` and its false outcome to `f`.
pub proof fn law_right_operand_decides(
    flow: crate::flow_model::SalsaFlowSummary,
    c: u32,
    l: u32,
    r: u32,
    t: SalsaFlowNodeRefSummary,
    f: SalsaFlowNodeRefSummary,
    fuel: nat,
)
    requires
        fuel > 1,
        crate::flow_model::spec_find_condition(flow, c) matches Some(cond) && cond.left_condition_offset == Some(l)
            && cond.right_condition_offset == Some(r) && cond.kind != crate::flow_model::SalsaFlowConditionKindSummary::Expr,
        crate::flow_model::spec_find_condition(flow, r) matches Some(rc) && rc.kind == crate::flow_model::SalsaFlowConditionKindSummary::Expr,
    ensures
        ({
            let e = crate::flow::condition_edges_fuel(flow, c, t, f, fuel);
            let right = SalsaFlowNodeRefSummary::Condition(r);
            &&& e.contains((SalsaFlowEdgeSummary { kind: crate::flow::SalsaFlowEdgeKindSummary::ConditionTrue, from: right, to: t }))
            &&& e.contains((SalsaFlowEdgeSummary { kind: crate::flow::SalsaFlowEdgeKindSummary::ConditionFalse, from: right, to: f }))
        }),
{
    let e = crate::flow::condition_edges_fuel(flow, c, t, f, fuel);
    let cond = crate::flow_model::spec_find_condition(flow, c).unwrap();
    let left = SalsaFlowNodeRefSummary::Condition(l);
    let right = SalsaFlowNodeRefSummary::Condition(r);
    let (on_true, on_false) = if cond.kind == crate::flow_model::SalsaFlowConditionKindSummary::Or {
        (t, right)
    } else {
        (right, f)
    };
    let le = crate::flow::condition_edges_fuel(flow, l, on_true, on_false, (fuel - 1) as nat);
    let re = crate::flow::condition_edges_fuel(flow, r, t, f, (fuel - 1) as nat);
    law_plain_condition_edges(flow, r, t, f, (fuel - 1) as nat);
    let enter = SalsaFlowEdgeSummary { kind: crate::flow::SalsaFlowEdgeKindSummary::ConditionEnter, from: SalsaFlowNodeRefSummary::Condition(c), to: left };
    assert(e == seq![enter] + le + re);
    assert(e[1 + le.len() as int] == re[0]);
    assert(e[2 + le.len() as int] == re[1]);
}

} // verus!
