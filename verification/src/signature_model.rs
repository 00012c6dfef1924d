//! What the solver reads of signatures, calls and `for ... in` loops: the doc
//! types a call returns, the values a signature returns, and how a loop's
//! iterator is produced.
use vstd::prelude::*;

use crate::semantic_solver::{SalsaForRangeIterResolveStateSummary, SalsaSignatureReturnResolveStateSummary};
use crate::lookup::{Keyed, find_first_index, first_with_key, lemma_first_index_with_key};
use crate::type_info::{SalsaSyntaxIdSummary, SalsaTypeCandidateOriginSummary, SalsaTypeCandidateSummary};

verus! {

/// A parameter of a signature: its name, where it stands, and whether it is `...`.
#[derive(Clone, Debug)]
pub struct SalsaSignatureParamSummary {
    pub name: String,
    pub syntax_offset: u32,
    pub is_vararg: bool,
}

/// A signature of the file: the offset of its syntax node, the offset of the
/// statement or expression that its documentation is attached to, the name it is
/// declared under (if any), whether it is declared with `:`, its parameters, and
/// the offsets of the `---@param` tags that document it.
#[derive(Clone, Debug)]
pub struct SalsaSignatureSummary {
    pub syntax_offset: u32,
    pub owner_offset: u32,
    pub name: Option<String>,
    pub is_method: bool,
    pub params: Vec<SalsaSignatureParamSummary>,
    pub doc_param_offsets: Vec<u32>,
}

/// The signatures of a file.
#[derive(Clone, Debug)]
pub struct SalsaSignatureIndexSummary {
    pub signatures: Vec<SalsaSignatureSummary>,
}

/// A doc type: a lowered node, by its key, or one that could not be read.
#[derive(Clone, Copy, Debug, PartialEq, Eq, Structural)]
pub enum SalsaDocTypeRef {
    Node(u32),
    Incomplete,
}

#[derive(Clone, Copy, Debug, PartialEq, Eq, Structural)]
pub struct SalsaSignatureTypeExplainSummary {
    pub type_ref: SalsaDocTypeRef,
}

#[derive(Clone, Copy, Debug, PartialEq, Eq, Structural)]
pub struct SalsaSignatureReturnItemExplainSummary {
    pub doc_type: SalsaSignatureTypeExplainSummary,
}

/// One `@return` row: the doc types of the results, in order.
#[derive(Clone, Debug)]
pub struct SalsaSignatureReturnExplainSummary {
    pub syntax_offset: u32,
    pub items: Vec<SalsaSignatureReturnItemExplainSummary>,
}

/// A call: the signatures it may call, the one it resolves to, and the rows of
/// doc types it returns.
#[derive(Clone, Debug)]
pub struct SalsaCallExplainSummary {
    pub syntax_offset: u32,
    pub syntax_id: SalsaSyntaxIdSummary,
    pub candidate_signature_offsets: Vec<u32>,
    pub resolved_signature_offset: Option<u32>,
    pub returns: Vec<SalsaSignatureReturnExplainSummary>,
}

#[derive(Clone, Copy, Debug, PartialEq, Eq, Structural)]
pub enum SalsaSignatureReturnExprKindSummary {
    Name,
    Member,
    Call,
    Literal,
    Closure,
    Table,
    Other,
}

/// The type candidates of a name at a program point.
#[derive(Clone, Debug)]
pub struct SalsaProgramPointTypeInfoSummary {
    pub candidates: Vec<SalsaTypeCandidateSummary>,
}

/// The type candidates of a member at a program point.
#[derive(Clone, Debug)]
pub struct SalsaProgramPointMemberTypeInfoSummary {
    pub candidates: Vec<SalsaTypeCandidateSummary>,
}

/// One value a signature returns: its expression, what kind it is, the doc types
/// declared for it, and what is known of the name, member or call it is.
#[derive(Clone, Debug)]
pub struct SalsaSignatureReturnValueSummary {
    pub expr_offset: u32,
    pub kind: SalsaSignatureReturnExprKindSummary,
    pub doc_return_type_offsets: Vec<u32>,
    pub name_type: Option<SalsaProgramPointTypeInfoSummary>,
    pub member_type: Option<SalsaProgramPointMemberTypeInfoSummary>,
    pub call: Option<SalsaCallExplainSummary>,
}

/// What a signature returns.
#[derive(Clone, Debug)]
pub struct SalsaSignatureReturnQuerySummary {
    pub signature_offset: u32,
    pub state: SalsaSignatureReturnResolveStateSummary,
    pub doc_returns: Vec<SalsaSignatureReturnExplainSummary>,
    pub values: Vec<SalsaSignatureReturnValueSummary>,
}

#[derive(Clone, Debug)]
pub struct SalsaSignatureReturnQueryIndex {
    pub signatures: Vec<SalsaSignatureReturnQuerySummary>,
}

#[derive(Clone, Copy, Debug, PartialEq, Eq, Structural)]
pub enum SalsaForRangeIterSourceKindSummary {
    Name,
    Member,
    Call,
    Other,
}

/// The expression a `for ... in` loop iterates over, and what is known of it.
#[derive(Clone, Debug)]
pub struct SalsaForRangeIterSourceSummary {
    pub expr_offset: u32,
    pub kind: SalsaForRangeIterSourceKindSummary,
    pub name_type: Option<SalsaProgramPointTypeInfoSummary>,
    pub member_type: Option<SalsaProgramPointMemberTypeInfoSummary>,
    pub call: Option<SalsaCallExplainSummary>,
}

/// One variable of a `for ... in` loop and the doc types of its slot.
#[derive(Clone, Debug)]
pub struct SalsaForRangeIterVarSummary {
    pub name: String,
    pub decl_id: u32,
    pub slot_index: usize,
    pub type_offsets: Vec<u32>,
}

/// A `for ... in` loop: where it is, its iterator expressions, how well its
/// variables are resolved, its source and its variables.
#[derive(Clone, Debug)]
pub struct SalsaForRangeIterQuerySummary {
    pub loop_offset: u32,
    pub iter_expr_offsets: Vec<u32>,
    pub state: SalsaForRangeIterResolveStateSummary,
    pub source: Option<SalsaForRangeIterSourceSummary>,
    pub iter_vars: Vec<SalsaForRangeIterVarSummary>,
}

#[derive(Clone, Debug)]
pub struct SalsaForRangeIterQueryIndex {
    pub loops: Vec<SalsaForRangeIterQuerySummary>,
}

pub struct CandidateView {
    pub origin: SalsaTypeCandidateOriginSummary,
    pub explicit_type_offsets: Seq<u32>,
    pub named_type_names: Seq<Seq<char>>,
    pub initializer_offset: Option<u32>,
    pub value_expr_syntax_id: Option<SalsaSyntaxIdSummary>,
    pub value_result_index: usize,
    pub source_call_syntax_id: Option<SalsaSyntaxIdSummary>,
    pub signature_offset: Option<u32>,
}

impl View for SalsaTypeCandidateSummary {
    type V = CandidateView;

    open spec fn view(&self) -> CandidateView {
        CandidateView {
            origin: self.origin,
            explicit_type_offsets: self.explicit_type_offsets@,
            named_type_names: self.named_type_names@.map_values(|s: String| s@),
            initializer_offset: self.initializer_offset,
            value_expr_syntax_id: self.value_expr_syntax_id,
            value_result_index: self.value_result_index,
            source_call_syntax_id: self.source_call_syntax_id,
            signature_offset: self.signature_offset,
        }
    }
}

pub open spec fn candidates_view(s: Seq<SalsaTypeCandidateSummary>) -> Seq<CandidateView> {
    s.map_values(|c: SalsaTypeCandidateSummary| c@)
}

impl View for SalsaProgramPointTypeInfoSummary {
    type V = Seq<CandidateView>;

    open spec fn view(&self) -> Seq<CandidateView> {
        candidates_view(self.candidates@)
    }
}

impl View for SalsaProgramPointMemberTypeInfoSummary {
    type V = Seq<CandidateView>;

    open spec fn view(&self) -> Seq<CandidateView> {
        candidates_view(self.candidates@)
    }
}

impl View for SalsaSignatureReturnExplainSummary {
    type V = (u32, Seq<SalsaSignatureReturnItemExplainSummary>);

    open spec fn view(&self) -> (u32, Seq<SalsaSignatureReturnItemExplainSummary>) {
        (self.syntax_offset, self.items@)
    }
}

pub open spec fn return_rows_view(s: Seq<SalsaSignatureReturnExplainSummary>) -> Seq<
    (u32, Seq<SalsaSignatureReturnItemExplainSummary>),
> {
    s.map_values(|r: SalsaSignatureReturnExplainSummary| r@)
}

pub struct CallExplainView {
    pub syntax_offset: u32,
    pub syntax_id: SalsaSyntaxIdSummary,
    pub candidate_signature_offsets: Seq<u32>,
    pub resolved_signature_offset: Option<u32>,
    pub returns: Seq<(u32, Seq<SalsaSignatureReturnItemExplainSummary>)>,
}

impl View for SalsaCallExplainSummary {
    type V = CallExplainView;

    open spec fn view(&self) -> CallExplainView {
        CallExplainView {
            syntax_offset: self.syntax_offset,
            syntax_id: self.syntax_id,
            candidate_signature_offsets: self.candidate_signature_offsets@,
            resolved_signature_offset: self.resolved_signature_offset,
            returns: return_rows_view(self.returns@),
        }
    }
}

pub open spec fn opt_call_view(c: Option<SalsaCallExplainSummary>) -> Option<CallExplainView> {
    match c {
        Some(c) => Some(c@),
        None => None,
    }
}

pub open spec fn opt_candidates_view(c: Option<SalsaProgramPointTypeInfoSummary>) -> Option<Seq<CandidateView>> {
    match c {
        Some(c) => Some(c@),
        None => None,
    }
}

pub open spec fn opt_member_candidates_view(c: Option<SalsaProgramPointMemberTypeInfoSummary>) -> Option<
    Seq<CandidateView>,
> {
    match c {
        Some(c) => Some(c@),
        None => None,
    }
}

pub struct ReturnValueView {
    pub expr_offset: u32,
    pub kind: SalsaSignatureReturnExprKindSummary,
    pub doc_return_type_offsets: Seq<u32>,
    pub name_type: Option<Seq<CandidateView>>,
    pub member_type: Option<Seq<CandidateView>>,
    pub call: Option<CallExplainView>,
}

impl View for SalsaSignatureReturnValueSummary {
    type V = ReturnValueView;

    open spec fn view(&self) -> ReturnValueView {
        ReturnValueView {
            expr_offset: self.expr_offset,
            kind: self.kind,
            doc_return_type_offsets: self.doc_return_type_offsets@,
            name_type: opt_candidates_view(self.name_type),
            member_type: opt_member_candidates_view(self.member_type),
            call: opt_call_view(self.call),
        }
    }
}

pub open spec fn return_values_view(s: Seq<SalsaSignatureReturnValueSummary>) -> Seq<ReturnValueView> {
    s.map_values(|v: SalsaSignatureReturnValueSummary| v@)
}

pub struct ForRangeSourceView {
    pub expr_offset: u32,
    pub kind: SalsaForRangeIterSourceKindSummary,
    pub name_type: Option<Seq<CandidateView>>,
    pub member_type: Option<Seq<CandidateView>>,
    pub call: Option<CallExplainView>,
}

impl View for SalsaForRangeIterSourceSummary {
    type V = ForRangeSourceView;

    open spec fn view(&self) -> ForRangeSourceView {
        ForRangeSourceView {
            expr_offset: self.expr_offset,
            kind: self.kind,
            name_type: opt_candidates_view(self.name_type),
            member_type: opt_member_candidates_view(self.member_type),
            call: opt_call_view(self.call),
        }
    }
}

pub open spec fn opt_source_view(s: Option<SalsaForRangeIterSourceSummary>) -> Option<ForRangeSourceView> {
    match s {
        Some(s) => Some(s@),
        None => None,
    }
}

impl View for SalsaForRangeIterVarSummary {
    type V = (Seq<char>, u32, usize, Seq<u32>);

    open spec fn view(&self) -> (Seq<char>, u32, usize, Seq<u32>) {
        (self.name@, self.decl_id, self.slot_index, self.type_offsets@)
    }
}

pub open spec fn iter_vars_view(s: Seq<SalsaForRangeIterVarSummary>) -> Seq<(Seq<char>, u32, usize, Seq<u32>)> {
    s.map_values(|v: SalsaForRangeIterVarSummary| v@)
}

pub fn clone_u32_vec(v: &Vec<u32>) -> (r: Vec<u32>)
    ensures
        r@ == v@,
{
    let r = v.clone();
    assert(r@ =~= v@);
    r
}

pub fn clone_candidate(c: &SalsaTypeCandidateSummary) -> (r: SalsaTypeCandidateSummary)
    ensures
        r@ == c@,
{
    let names = c.named_type_names.clone();
    assert(names@ =~= c.named_type_names@);
    SalsaTypeCandidateSummary {
        origin: c.origin,
        explicit_type_offsets: clone_u32_vec(&c.explicit_type_offsets),
        named_type_names: names,
        initializer_offset: c.initializer_offset,
        value_expr_syntax_id: c.value_expr_syntax_id,
        value_result_index: c.value_result_index,
        source_call_syntax_id: c.source_call_syntax_id,
        signature_offset: c.signature_offset,
    }
}

pub fn clone_candidates(v: &Vec<SalsaTypeCandidateSummary>) -> (r: Vec<SalsaTypeCandidateSummary>)
    ensures
        candidates_view(r@) == candidates_view(v@),
{
    let mut r: Vec<SalsaTypeCandidateSummary> = Vec::new();
    let mut i: usize = 0;
    while i < v.len()
        invariant
            i <= v@.len(),
            candidates_view(r@) == candidates_view(v@).take(i as int),
        decreases v@.len() - i,
    {
        let ghost before = r@;
        r.push(clone_candidate(&v[i]));
        assert(candidates_view(r@) =~= candidates_view(before).push(v@[i as int]@));
        assert(candidates_view(v@).take(i + 1) =~= candidates_view(v@).take(i as int).push(v@[i as int]@));
        i = i + 1;
    }
    assert(candidates_view(v@).take(i as int) =~= candidates_view(v@));
    r
}

pub fn clone_return_row(r: &SalsaSignatureReturnExplainSummary) -> (c: SalsaSignatureReturnExplainSummary)
    ensures
        c@ == r@,
{
    let items = r.items.clone();
    assert(items@ =~= r.items@);
    SalsaSignatureReturnExplainSummary { syntax_offset: r.syntax_offset, items }
}

pub fn clone_return_rows(v: &Vec<SalsaSignatureReturnExplainSummary>) -> (r: Vec<SalsaSignatureReturnExplainSummary>)
    ensures
        return_rows_view(r@) == return_rows_view(v@),
{
    let mut r: Vec<SalsaSignatureReturnExplainSummary> = Vec::new();
    let mut i: usize = 0;
    while i < v.len()
        invariant
            i <= v@.len(),
            return_rows_view(r@) == return_rows_view(v@).take(i as int),
        decreases v@.len() - i,
    {
        let ghost before = r@;
        r.push(clone_return_row(&v[i]));
        assert(return_rows_view(r@) =~= return_rows_view(before).push(v@[i as int]@));
        assert(return_rows_view(v@).take(i + 1) =~= return_rows_view(v@).take(i as int).push(v@[i as int]@));
        i = i + 1;
    }
    assert(return_rows_view(v@).take(i as int) =~= return_rows_view(v@));
    r
}

pub fn clone_call(c: &SalsaCallExplainSummary) -> (r: SalsaCallExplainSummary)
    ensures
        r@ == c@,
{
    SalsaCallExplainSummary {
        syntax_offset: c.syntax_offset,
        syntax_id: c.syntax_id,
        candidate_signature_offsets: clone_u32_vec(&c.candidate_signature_offsets),
        resolved_signature_offset: c.resolved_signature_offset,
        returns: clone_return_rows(&c.returns),
    }
}

fn clone_opt_call(c: &Option<SalsaCallExplainSummary>) -> (r: Option<SalsaCallExplainSummary>)
    ensures
        opt_call_view(r) == opt_call_view(*c),
{
    match c {
        Some(c) => Some(clone_call(c)),
        None => None,
    }
}

fn clone_opt_name_type(c: &Option<SalsaProgramPointTypeInfoSummary>) -> (r: Option<SalsaProgramPointTypeInfoSummary>)
    ensures
        opt_candidates_view(r) == opt_candidates_view(*c),
{
    match c {
        Some(c) => Some(SalsaProgramPointTypeInfoSummary { candidates: clone_candidates(&c.candidates) }),
        None => None,
    }
}

fn clone_opt_member_type(c: &Option<SalsaProgramPointMemberTypeInfoSummary>) -> (r: Option<
    SalsaProgramPointMemberTypeInfoSummary,
>)
    ensures
        opt_member_candidates_view(r) == opt_member_candidates_view(*c),
{
    match c {
        Some(c) => Some(SalsaProgramPointMemberTypeInfoSummary { candidates: clone_candidates(&c.candidates) }),
        None => None,
    }
}

pub fn clone_return_value(v: &SalsaSignatureReturnValueSummary) -> (r: SalsaSignatureReturnValueSummary)
    ensures
        r@ == v@,
{
    SalsaSignatureReturnValueSummary {
        expr_offset: v.expr_offset,
        kind: v.kind,
        doc_return_type_offsets: clone_u32_vec(&v.doc_return_type_offsets),
        name_type: clone_opt_name_type(&v.name_type),
        member_type: clone_opt_member_type(&v.member_type),
        call: clone_opt_call(&v.call),
    }
}

pub fn clone_return_values(v: &Vec<SalsaSignatureReturnValueSummary>) -> (r: Vec<SalsaSignatureReturnValueSummary>)
    ensures
        return_values_view(r@) == return_values_view(v@),
{
    let mut r: Vec<SalsaSignatureReturnValueSummary> = Vec::new();
    let mut i: usize = 0;
    while i < v.len()
        invariant
            i <= v@.len(),
            return_values_view(r@) == return_values_view(v@).take(i as int),
        decreases v@.len() - i,
    {
        let ghost before = r@;
        r.push(clone_return_value(&v[i]));
        assert(return_values_view(r@) =~= return_values_view(before).push(v@[i as int]@));
        assert(return_values_view(v@).take(i + 1) =~= return_values_view(v@).take(i as int).push(v@[i as int]@));
        i = i + 1;
    }
    assert(return_values_view(v@).take(i as int) =~= return_values_view(v@));
    r
}

pub fn clone_opt_source(s: &Option<SalsaForRangeIterSourceSummary>) -> (r: Option<SalsaForRangeIterSourceSummary>)
    ensures
        opt_source_view(r) == opt_source_view(*s),
{
    match s {
        Some(s) => Some(
            SalsaForRangeIterSourceSummary {
                expr_offset: s.expr_offset,
                kind: s.kind,
                name_type: clone_opt_name_type(&s.name_type),
                member_type: clone_opt_member_type(&s.member_type),
                call: clone_opt_call(&s.call),
            },
        ),
        None => None,
    }
}

pub fn clone_iter_vars(v: &Vec<SalsaForRangeIterVarSummary>) -> (r: Vec<SalsaForRangeIterVarSummary>)
    ensures
        iter_vars_view(r@) == iter_vars_view(v@),
{
    let mut r: Vec<SalsaForRangeIterVarSummary> = Vec::new();
    let mut i: usize = 0;
    while i < v.len()
        invariant
            i <= v@.len(),
            iter_vars_view(r@) == iter_vars_view(v@).take(i as int),
        decreases v@.len() - i,
    {
        let ghost before = r@;
        let x = &v[i];
        r.push(
            SalsaForRangeIterVarSummary {
                name: x.name.clone(),
                decl_id: x.decl_id,
                slot_index: x.slot_index,
                type_offsets: clone_u32_vec(&x.type_offsets),
            },
        );
        assert(iter_vars_view(r@) =~= iter_vars_view(before).push(v@[i as int]@));
        assert(iter_vars_view(v@).take(i + 1) =~= iter_vars_view(v@).take(i as int).push(v@[i as int]@));
        i = i + 1;
    }
    assert(iter_vars_view(v@).take(i as int) =~= iter_vars_view(v@));
    r
}

/// The calls of a file, explained: found by offset or by syntax node.
#[derive(Clone, Debug)]
pub struct SalsaSignatureExplainIndex {
    pub calls: Vec<SalsaCallExplainSummary>,
}

impl Keyed for SalsaCallExplainSummary {
    open spec fn key(&self) -> u32 { self.syntax_offset }
    fn get_key(&self) -> (k: u32) { self.syntax_offset }
}

impl Keyed for SalsaForRangeIterQuerySummary {
    open spec fn key(&self) -> u32 { self.loop_offset }
    fn get_key(&self) -> (k: u32) { self.loop_offset }
}

/// The explanation of the call at `call_offset`: the first one there.
pub open spec fn spec_find_call_explain_at(index: SalsaSignatureExplainIndex, call_offset: u32) -> Option<CallExplainView> {
    match first_with_key(index.calls@, call_offset) {
        Some(c) => Some(c@),
        None => None,
    }
}

/// The explanation of the call whose node is `syntax_id`: the first such one.
pub open spec fn spec_find_call_explain_by_syntax_id(
    index: SalsaSignatureExplainIndex,
    syntax_id: SalsaSyntaxIdSummary,
) -> Option<CallExplainView> {
    let s = index.calls@;
    if exists|i: int| 0 <= i < s.len() && (#[trigger] s[i]).syntax_id == syntax_id {
        let i = choose|i: int|
            0 <= i < s.len() && (#[trigger] s[i]).syntax_id == syntax_id && forall|j: int|
                0 <= j < i ==> (#[trigger] s[j]).syntax_id != syntax_id;
        Some(s[i]@)
    } else {
        None
    }
}

/// Finds the explanation of the call at `call_offset`.
pub fn find_call_explain_at(index: &SalsaSignatureExplainIndex, call_offset: u32) -> (r: Option<SalsaCallExplainSummary>)
    ensures
        opt_call_view(r) == spec_find_call_explain_at(*index, call_offset),
{
    proof { lemma_first_index_with_key(index.calls@, call_offset); }
    match find_first_index(&index.calls, call_offset) {
        Some(i) => Some(clone_call(&index.calls[i])),
        None => None,
    }
}

/// Finds the explanation of the call whose node is `syntax_id`.
pub fn find_call_explain_by_syntax_id(index: &SalsaSignatureExplainIndex, syntax_id: SalsaSyntaxIdSummary) -> (r:
    Option<SalsaCallExplainSummary>)
    ensures
        opt_call_view(r) == spec_find_call_explain_by_syntax_id(*index, syntax_id),
{
    let ghost s = index.calls@;
    let mut i: usize = 0;
    while i < index.calls.len()
        invariant
            s == index.calls@,
            i <= s.len(),
            forall|j: int| 0 <= j < i ==> (#[trigger] s[j]).syntax_id != syntax_id,
        decreases s.len() - i,
    {
        if index.calls[i].syntax_id == syntax_id {
            let ghost k = choose|k: int|
                0 <= k < s.len() && (#[trigger] s[k]).syntax_id == syntax_id && forall|j: int|
                    0 <= j < k ==> (#[trigger] s[j]).syntax_id != syntax_id;
            assert(k == i) by {
                if k > i {
                    assert(s[i as int].syntax_id == syntax_id);
                }
            }
            return Some(clone_call(&index.calls[i]));
        }
        i = i + 1;
    }
    None
}

/// Finds the `for ... in` loop at `loop_offset`: the first entry for it.
pub fn find_for_range_iter_query_at(index: &SalsaForRangeIterQueryIndex, loop_offset: u32) -> (r: Option<
    &SalsaForRangeIterQuerySummary,
>)
    ensures
        match r {
            Some(s) => first_with_key(index.loops@, loop_offset) == Some(*s),
            None => first_with_key(index.loops@, loop_offset).is_none(),
        },
{
    proof { lemma_first_index_with_key(index.loops@, loop_offset); }
    match find_first_index(&index.loops, loop_offset) {
        Some(i) => Some(&index.loops[i]),
        None => None,
    }
}

} // verus!
