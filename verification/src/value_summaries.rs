//! The solver's summaries of one declaration's and one member's value, as the
//! component of the semantic graph that holds it sees them.
use vstd::prelude::*;

use crate::doc_tag::clone_strings;
use crate::semantic_graph::{SalsaSemanticGraphNodeSummary, SalsaSemanticGraphSccComponentSummary};
use crate::semantic_solver::{SalsaSemanticResolveStateSummary, SalsaSemanticValueShellSummary, clone_shell};
use crate::signature_model::{CandidateView, candidates_view, clone_candidates, clone_u32_vec};
use crate::solver_shells::{
    build_semantic_value_shell_from_decl_type, build_semantic_value_shell_from_member_type, spec_candidates_shell,
    spec_decl_type_shell,
};
use crate::solver_summaries::{component_holds, unknown_shell_view};
use crate::type_info::{SalsaDeclTypeInfoSummary, SalsaMemberTypeInfoSummary, SalsaSyntaxIdSummary};

verus! {

/// One declaration's value, as its component sees it.
#[derive(Clone, Debug)]
pub struct SalsaSemanticDeclSummary {
    pub component_id: usize,
    pub decl_type: SalsaDeclTypeInfoSummary,
    pub propagated_value_shell: SalsaSemanticValueShellSummary,
    pub local_value_shell: SalsaSemanticValueShellSummary,
    pub fixedpoint_value_shell: SalsaSemanticValueShellSummary,
    pub value_shell: SalsaSemanticValueShellSummary,
    pub is_cycle: bool,
}

/// One member's value, as its component sees it.
#[derive(Clone, Debug)]
pub struct SalsaSemanticMemberSummary {
    pub component_id: usize,
    pub member_type: SalsaMemberTypeInfoSummary,
    pub propagated_value_shell: SalsaSemanticValueShellSummary,
    pub local_value_shell: SalsaSemanticValueShellSummary,
    pub fixedpoint_value_shell: SalsaSemanticValueShellSummary,
    pub value_shell: SalsaSemanticValueShellSummary,
    pub is_cycle: bool,
}

/// What a declaration's type information holds, field by field.
pub open spec fn decl_type_view(d: SalsaDeclTypeInfoSummary) -> (
    u32,
    Seq<char>,
    Seq<u32>,
    Seq<String>,
    Option<u32>,
    Option<SalsaSyntaxIdSummary>,
    usize,
    Option<SalsaSyntaxIdSummary>,
    Option<u32>,
    Option<u32>,
) {
    (
        d.decl_id,
        d.name@,
        d.explicit_type_offsets@,
        d.named_type_names@,
        d.initializer_offset,
        d.value_expr_syntax_id,
        d.value_result_index,
        d.source_call_syntax_id,
        d.signature_offset,
        d.value_signature_offset,
    )
}

/// What a member's type information holds: its target and its candidates.
pub open spec fn member_type_view(m: SalsaMemberTypeInfoSummary) -> (u32, Seq<CandidateView>) {
    (m.target, candidates_view(m.candidates@))
}

pub(crate) fn clone_decl_type_info(d: &SalsaDeclTypeInfoSummary) -> (r: SalsaDeclTypeInfoSummary)
    ensures
        decl_type_view(r) == decl_type_view(*d),
{
    SalsaDeclTypeInfoSummary {
        decl_id: d.decl_id,
        name: d.name.clone(),
        explicit_type_offsets: clone_u32_vec(&d.explicit_type_offsets),
        named_type_names: clone_strings(&d.named_type_names),
        initializer_offset: d.initializer_offset,
        value_expr_syntax_id: d.value_expr_syntax_id,
        value_result_index: d.value_result_index,
        source_call_syntax_id: d.source_call_syntax_id,
        signature_offset: d.signature_offset,
        value_signature_offset: d.value_signature_offset,
    }
}

fn clone_member_type_info(m: &SalsaMemberTypeInfoSummary) -> (r: SalsaMemberTypeInfoSummary)
    ensures
        member_type_view(r) == member_type_view(*m),
{
    SalsaMemberTypeInfoSummary { target: m.target, candidates: clone_candidates(&m.candidates) }
}

/// The summary of one declaration in `component`, if the component holds that
/// declaration's value: its shell is what the declaration's type information
/// alone says, it has propagated nothing, and its local, fixed-point and final
/// shells are that shell.
pub fn build_semantic_decl_summary(
    component: &SalsaSemanticGraphSccComponentSummary,
    decl_type: &SalsaDeclTypeInfoSummary,
) -> (r: Option<SalsaSemanticDeclSummary>)
    ensures
        match r {
            None => !component.nodes@.contains(SalsaSemanticGraphNodeSummary::DeclValue(decl_type.decl_id)),
            Some(s) => {
                &&& component.nodes@.contains(SalsaSemanticGraphNodeSummary::DeclValue(decl_type.decl_id))
                &&& s.component_id == component.component_id
                &&& decl_type_view(s.decl_type) == decl_type_view(*decl_type)
                &&& s.propagated_value_shell@ == unknown_shell_view()
                &&& spec_decl_type_shell(Some(*decl_type), s.value_shell@)
                &&& s.local_value_shell@ == s.value_shell@
                &&& s.fixedpoint_value_shell@ == s.value_shell@
                &&& s.is_cycle == component.is_cycle
            },
        },
{
    if !component_holds(component, SalsaSemanticGraphNodeSummary::DeclValue(decl_type.decl_id)) {
        return None;
    }
    let value_shell = build_semantic_value_shell_from_decl_type(Some(decl_type));
    Some(
        SalsaSemanticDeclSummary {
            component_id: component.component_id,
            decl_type: clone_decl_type_info(decl_type),
            propagated_value_shell: SalsaSemanticValueShellSummary {
                state: SalsaSemanticResolveStateSummary::Unknown,
                candidate_type_offsets: Vec::new(),
            },
            local_value_shell: clone_shell(&value_shell),
            fixedpoint_value_shell: clone_shell(&value_shell),
            value_shell,
            is_cycle: component.is_cycle,
        },
    )
}

/// The summary of one member in `component`, if the component holds that
/// member's value: its shell is what the member's candidates alone say, it has
/// propagated nothing, and its local, fixed-point and final shells are that shell.
pub fn build_semantic_member_summary(
    component: &SalsaSemanticGraphSccComponentSummary,
    member_type: &SalsaMemberTypeInfoSummary,
) -> (r: Option<SalsaSemanticMemberSummary>)
    ensures
        match r {
            None => !component.nodes@.contains(SalsaSemanticGraphNodeSummary::MemberValue(member_type.target)),
            Some(s) => {
                &&& component.nodes@.contains(SalsaSemanticGraphNodeSummary::MemberValue(member_type.target))
                &&& s.component_id == component.component_id
                &&& member_type_view(s.member_type) == member_type_view(*member_type)
                &&& s.propagated_value_shell@ == unknown_shell_view()
                &&& spec_candidates_shell(candidates_view(member_type.candidates@), true, s.value_shell@)
                &&& s.local_value_shell@ == s.value_shell@
                &&& s.fixedpoint_value_shell@ == s.value_shell@
                &&& s.is_cycle == component.is_cycle
            },
        },
{
    if !component_holds(component, SalsaSemanticGraphNodeSummary::MemberValue(member_type.target)) {
        return None;
    }
    let value_shell = build_semantic_value_shell_from_member_type(Some(member_type));
    Some(
        SalsaSemanticMemberSummary {
            component_id: component.component_id,
            member_type: clone_member_type_info(member_type),
            propagated_value_shell: SalsaSemanticValueShellSummary {
                state: SalsaSemanticResolveStateSummary::Unknown,
                candidate_type_offsets: Vec::new(),
            },
            local_value_shell: clone_shell(&value_shell),
            fixedpoint_value_shell: clone_shell(&value_shell),
            value_shell,
            is_cycle: component.is_cycle,
        },
    )
}

} // verus!
