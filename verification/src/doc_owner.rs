//! What each documented statement binds to: one declaration, member or
//! signature, nothing, or several candidates; and the queries by owner position
//! and by target.
use vstd::prelude::*;

use crate::doc_tag::SalsaDocOwnerKindSummary;
use crate::lexical::lemma_filter_take_step;

verus! {

/// A target that a documentation comment may bind to: a declaration (by id), a
/// member (by target handle) or a signature (by offset).
#[derive(Clone, Copy, Debug, PartialEq, Eq, Structural)]
pub enum SalsaBindingTargetSummary {
    Decl(u32),
    Member(u32),
    Signature(u32),
}

/// The statement that a documentation comment is attached to, and the targets
/// that it may document.
#[derive(Clone, Debug, PartialEq, Eq)]
pub struct SalsaDocOwnerBindingSummary {
    pub owner_kind: SalsaDocOwnerKindSummary,
    pub owner_offset: u32,
    pub targets: Vec<SalsaBindingTargetSummary>,
}

#[derive(Clone, Debug, PartialEq, Eq)]
pub struct SalsaDocOwnerBindingIndexSummary {
    pub bindings: Vec<SalsaDocOwnerBindingSummary>,
}

#[derive(Clone, Debug, PartialEq, Eq)]
pub enum SalsaDocOwnerResolutionSummary {
    Unresolved,
    Decl(u32),
    Member(u32),
    Signature(u32),
    Ambiguous(Vec<SalsaBindingTargetSummary>),
}

/// A documented statement and what its comment documents.
#[derive(Clone, Debug, PartialEq, Eq)]
pub struct SalsaDocOwnerResolveSummary {
    pub owner_kind: SalsaDocOwnerKindSummary,
    pub owner_offset: u32,
    pub resolution: SalsaDocOwnerResolutionSummary,
}

/// The resolved owners of a file's documentation comments.
#[derive(Clone, Debug, PartialEq, Eq)]
pub struct SalsaDocOwnerResolveIndex {
    pub bindings: Vec<SalsaDocOwnerResolveSummary>,
}

pub enum ResolutionView {
    Unresolved,
    Decl(u32),
    Member(u32),
    Signature(u32),
    Ambiguous(Seq<SalsaBindingTargetSummary>),
}

pub struct ResolveView {
    pub owner_kind: SalsaDocOwnerKindSummary,
    pub owner_offset: u32,
    pub resolution: ResolutionView,
}

impl View for SalsaDocOwnerResolveSummary {
    type V = ResolveView;

    open spec fn view(&self) -> ResolveView {
        ResolveView {
            owner_kind: self.owner_kind,
            owner_offset: self.owner_offset,
            resolution: match self.resolution {
                SalsaDocOwnerResolutionSummary::Unresolved => ResolutionView::Unresolved,
                SalsaDocOwnerResolutionSummary::Decl(d) => ResolutionView::Decl(d),
                SalsaDocOwnerResolutionSummary::Member(m) => ResolutionView::Member(m),
                SalsaDocOwnerResolutionSummary::Signature(s) => ResolutionView::Signature(s),
                SalsaDocOwnerResolutionSummary::Ambiguous(v) => ResolutionView::Ambiguous(v@),
            },
        }
    }
}

pub open spec fn resolves_view(s: Seq<SalsaDocOwnerResolveSummary>) -> Seq<ResolveView> {
    s.map_values(|r: SalsaDocOwnerResolveSummary| r@)
}

pub open spec fn opt_resolve_view(r: Option<SalsaDocOwnerResolveSummary>) -> Option<ResolveView> {
    match r {
        Some(r) => Some(r@),
        None => None,
    }
}

/// What a binding documents: nothing without a target, its target where it has
/// one, and all of them where it has several.
pub open spec fn spec_resolve_binding(b: SalsaDocOwnerBindingSummary) -> ResolveView {
    ResolveView {
        owner_kind: b.owner_kind,
        owner_offset: b.owner_offset,
        resolution: if b.targets@.len() == 0 {
            ResolutionView::Unresolved
        } else if b.targets@.len() == 1 {
            match b.targets@[0] {
                SalsaBindingTargetSummary::Decl(d) => ResolutionView::Decl(d),
                SalsaBindingTargetSummary::Member(m) => ResolutionView::Member(m),
                SalsaBindingTargetSummary::Signature(s) => ResolutionView::Signature(s),
            }
        } else {
            ResolutionView::Ambiguous(b.targets@)
        },
    }
}

/// The first of `s` for the statement at `offset`, if any.
pub open spec fn spec_first_resolve_at(s: Seq<ResolveView>, offset: u32) -> Option<ResolveView> {
    if exists|i: int| 0 <= i < s.len() && (#[trigger] s[i]).owner_offset == offset {
        let i = choose|i: int|
            0 <= i < s.len() && (#[trigger] s[i]).owner_offset == offset && forall|j: int|
                0 <= j < i ==> (#[trigger] s[j]).owner_offset != offset;
        Some(s[i])
    } else {
        None
    }
}

pub open spec fn resolves_to_decl(r: ResolveView, decl_id: u32) -> bool {
    r.resolution == ResolutionView::Decl(decl_id)
}

pub open spec fn resolves_to_member(r: ResolveView, target: u32) -> bool {
    r.resolution == ResolutionView::Member(target)
}

pub open spec fn resolves_to_signature(r: ResolveView, signature_offset: u32) -> bool {
    r.resolution == ResolutionView::Signature(signature_offset)
}

fn clone_targets(v: &Vec<SalsaBindingTargetSummary>) -> (r: Vec<SalsaBindingTargetSummary>)
    ensures
        r@ == v@,
{
    let mut r: Vec<SalsaBindingTargetSummary> = Vec::new();
    let mut i: usize = 0;
    while i < v.len()
        invariant
            i <= v@.len(),
            r@ == v@.take(i as int),
        decreases v@.len() - i,
    {
        r.push(v[i]);
        assert(r@ =~= v@.take(i + 1));
        i = i + 1;
    }
    assert(v@.take(i as int) =~= v@);
    r
}

pub(crate) fn clone_resolve(r: &SalsaDocOwnerResolveSummary) -> (c: SalsaDocOwnerResolveSummary)
    ensures
        c@ == r@,
{
    SalsaDocOwnerResolveSummary {
        owner_kind: r.owner_kind,
        owner_offset: r.owner_offset,
        resolution: match &r.resolution {
            SalsaDocOwnerResolutionSummary::Unresolved => SalsaDocOwnerResolutionSummary::Unresolved,
            SalsaDocOwnerResolutionSummary::Decl(d) => SalsaDocOwnerResolutionSummary::Decl(*d),
            SalsaDocOwnerResolutionSummary::Member(m) => SalsaDocOwnerResolutionSummary::Member(*m),
            SalsaDocOwnerResolutionSummary::Signature(s) => SalsaDocOwnerResolutionSummary::Signature(*s),
            SalsaDocOwnerResolutionSummary::Ambiguous(v) => SalsaDocOwnerResolutionSummary::Ambiguous(
                clone_targets(v),
            ),
        },
    }
}

/// Resolves what one binding documents.
pub fn resolve_doc_owner_binding(binding: &SalsaDocOwnerBindingSummary) -> (r: SalsaDocOwnerResolveSummary)
    ensures
        r@ == spec_resolve_binding(*binding),
{
    let resolution = if binding.targets.len() == 0 {
        SalsaDocOwnerResolutionSummary::Unresolved
    } else if binding.targets.len() == 1 {
        match binding.targets[0] {
            SalsaBindingTargetSummary::Decl(d) => SalsaDocOwnerResolutionSummary::Decl(d),
            SalsaBindingTargetSummary::Member(m) => SalsaDocOwnerResolutionSummary::Member(m),
            SalsaBindingTargetSummary::Signature(s) => SalsaDocOwnerResolutionSummary::Signature(s),
        }
    } else {
        SalsaDocOwnerResolutionSummary::Ambiguous(clone_targets(&binding.targets))
    };
    SalsaDocOwnerResolveSummary { owner_kind: binding.owner_kind, owner_offset: binding.owner_offset, resolution }
}

/// Resolves every binding of a file, in order.
pub fn build_doc_owner_resolve_index(owner_bindings: &SalsaDocOwnerBindingIndexSummary) -> (r:
    SalsaDocOwnerResolveIndex)
    ensures
        r.bindings@.len() == owner_bindings.bindings@.len(),
        forall|i: int|
            0 <= i < r.bindings@.len() ==> #[trigger] r.bindings@[i]@ == spec_resolve_binding(
                owner_bindings.bindings@[i],
            ),
{
    let mut bindings: Vec<SalsaDocOwnerResolveSummary> = Vec::new();
    let mut i: usize = 0;
    while i < owner_bindings.bindings.len()
        invariant
            i <= owner_bindings.bindings@.len(),
            bindings@.len() == i,
            forall|k: int|
                0 <= k < i ==> #[trigger] bindings@[k]@ == spec_resolve_binding(owner_bindings.bindings@[k]),
        decreases owner_bindings.bindings@.len() - i,
    {
        bindings.push(resolve_doc_owner_binding(&owner_bindings.bindings[i]));
        i = i + 1;
    }
    SalsaDocOwnerResolveIndex { bindings }
}

/// The first resolved binding of the statement at `owner_offset`.
pub fn find_doc_owner_resolve_at(resolve_index: &SalsaDocOwnerResolveIndex, owner_offset: u32) -> (r: Option<
    SalsaDocOwnerResolveSummary,
>)
    ensures
        opt_resolve_view(r) == spec_first_resolve_at(resolves_view(resolve_index.bindings@), owner_offset),
{
    let ghost v = resolves_view(resolve_index.bindings@);
    let mut i: usize = 0;
    while i < resolve_index.bindings.len()
        invariant
            v == resolves_view(resolve_index.bindings@),
            i <= v.len(),
            forall|j: int| 0 <= j < i ==> (#[trigger] v[j]).owner_offset != owner_offset,
        decreases v.len() - i,
    {
        assert(v[i as int] == resolve_index.bindings@[i as int]@);
        if resolve_index.bindings[i].owner_offset == owner_offset {
            let ghost k = choose|k: int|
                0 <= k < v.len() && (#[trigger] v[k]).owner_offset == owner_offset && forall|j: int|
                    0 <= j < k ==> (#[trigger] v[j]).owner_offset != owner_offset;
            assert(k == i) by {
                if k > i {
                    assert(v[i as int].owner_offset == owner_offset);
                }
            }
            return Some(clone_resolve(&resolve_index.bindings[i]));
        }
        i = i + 1;
    }
    None
}

/// The resolved bindings that document the declaration `decl_id`, in order.
pub fn collect_doc_owner_resolves_for_decl(resolve_index: &SalsaDocOwnerResolveIndex, decl_id: u32) -> (r: Vec<
    SalsaDocOwnerResolveSummary,
>)
    ensures
        resolves_view(r@) == resolves_view(resolve_index.bindings@).filter(
            |x: ResolveView| resolves_to_decl(x, decl_id),
        ),
{
    let ghost v = resolves_view(resolve_index.bindings@);
    let mut r: Vec<SalsaDocOwnerResolveSummary> = Vec::new();
    let mut i: usize = 0;
    while i < resolve_index.bindings.len()
        invariant
            v == resolves_view(resolve_index.bindings@),
            i <= v.len(),
            resolves_view(r@) == v.take(i as int).filter(|x: ResolveView| resolves_to_decl(x, decl_id)),
        decreases v.len() - i,
    {
        proof { lemma_filter_take_step(v, |x: ResolveView| resolves_to_decl(x, decl_id), i as int); }
        assert(v[i as int] == resolve_index.bindings@[i as int]@);
        if matches!(resolve_index.bindings[i].resolution, SalsaDocOwnerResolutionSummary::Decl(d) if d == decl_id) {
            let ghost before = r@;
            r.push(clone_resolve(&resolve_index.bindings[i]));
            assert(resolves_view(r@) =~= resolves_view(before).push(v[i as int]));
        }
        i = i + 1;
    }
    assert(v.take(i as int) =~= v);
    r
}

/// The resolved bindings that document the member with target handle
/// `member_target`, in order.
pub fn collect_doc_owner_resolves_for_member(resolve_index: &SalsaDocOwnerResolveIndex, member_target: u32) -> (r:
    Vec<SalsaDocOwnerResolveSummary>)
    ensures
        resolves_view(r@) == resolves_view(resolve_index.bindings@).filter(
            |x: ResolveView| resolves_to_member(x, member_target),
        ),
{
    let ghost v = resolves_view(resolve_index.bindings@);
    let mut r: Vec<SalsaDocOwnerResolveSummary> = Vec::new();
    let mut i: usize = 0;
    while i < resolve_index.bindings.len()
        invariant
            v == resolves_view(resolve_index.bindings@),
            i <= v.len(),
            resolves_view(r@) == v.take(i as int).filter(|x: ResolveView| resolves_to_member(x, member_target)),
        decreases v.len() - i,
    {
        proof { lemma_filter_take_step(v, |x: ResolveView| resolves_to_member(x, member_target), i as int); }
        assert(v[i as int] == resolve_index.bindings@[i as int]@);
        if matches!(resolve_index.bindings[i].resolution, SalsaDocOwnerResolutionSummary::Member(m) if m == member_target) {
            let ghost before = r@;
            r.push(clone_resolve(&resolve_index.bindings[i]));
            assert(resolves_view(r@) =~= resolves_view(before).push(v[i as int]));
        }
        i = i + 1;
    }
    assert(v.take(i as int) =~= v);
    r
}

/// The resolved bindings that document the signature at `signature_offset`, in
/// order.
pub fn collect_doc_owner_resolves_for_signature(resolve_index: &SalsaDocOwnerResolveIndex, signature_offset: u32) -> (r:
    Vec<SalsaDocOwnerResolveSummary>)
    ensures
        resolves_view(r@) == resolves_view(resolve_index.bindings@).filter(
            |x: ResolveView| resolves_to_signature(x, signature_offset),
        ),
{
    let ghost v = resolves_view(resolve_index.bindings@);
    let mut r: Vec<SalsaDocOwnerResolveSummary> = Vec::new();
    let mut i: usize = 0;
    while i < resolve_index.bindings.len()
        invariant
            v == resolves_view(resolve_index.bindings@),
            i <= v.len(),
            resolves_view(r@) == v.take(i as int).filter(|x: ResolveView| resolves_to_signature(x, signature_offset)),
        decreases v.len() - i,
    {
        proof { lemma_filter_take_step(v, |x: ResolveView| resolves_to_signature(x, signature_offset), i as int); }
        assert(v[i as int] == resolve_index.bindings@[i as int]@);
        if matches!(resolve_index.bindings[i].resolution, SalsaDocOwnerResolutionSummary::Signature(s) if s == signature_offset) {
            let ghost before = r@;
            r.push(clone_resolve(&resolve_index.bindings[i]));
            assert(resolves_view(r@) =~= resolves_view(before).push(v[i as int]));
        }
        i = i + 1;
    }
    assert(v.take(i as int) =~= v);
    r
}

} // verus!
