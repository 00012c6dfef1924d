use vstd::prelude::*;

pub mod offsets;
pub mod name_order;
pub mod lookup;
pub mod decls;
pub mod assignments;
pub mod assignment_flow;
pub mod members;
pub mod module;
pub mod uses;
pub mod lexical;
pub mod property;
pub mod flow_model;
pub mod flow;
pub mod flow_graph;
pub mod type_info;
pub mod type_index;
pub mod type_candidates;
pub mod global_types;
pub mod signature_return;
pub mod signature_explain;
pub mod doc_type;
pub mod doc_type_chains;
pub mod doc_type_resolved;
pub mod narrow;
pub mod narrow_sites;
pub mod program_point;
pub mod iterator_slots;
pub mod semantic_graph;
pub mod graph_build;
pub mod scc;
pub mod semantic_scc;
pub mod semantic_solver;
pub mod signature_model;
pub mod solver_shells;
pub mod solver_summaries;
pub mod solver_execution;
pub mod solver_run;
pub mod solver_component;
pub mod value_summaries;
pub mod doc_tag;
pub mod doc_diagnostics;
pub mod doc_owner;
pub mod semantic;
pub mod laws;

verus! {

} // verus!
