//! The semantic summary of one file: its documented and propertied targets
//! (declarations, members, signatures), with the documentation and properties of
//! each, the modules it requires, and what its module export stands for.
use vstd::prelude::*;

use crate::doc_owner::{
    ResolutionView, ResolveView, SalsaDocOwnerResolutionSummary, SalsaDocOwnerResolveIndex,
    SalsaDocOwnerResolveSummary, clone_resolve, collect_doc_owner_resolves_for_decl,
    collect_doc_owner_resolves_for_member, collect_doc_owner_resolves_for_signature, resolves_to_decl,
    resolves_to_member, resolves_to_signature, resolves_view,
};
use crate::doc_tag::{
    DocPropertyView, SalsaDocOwnerSummary, SalsaDocTagPropertySummary, SalsaDocTagQueryIndex,
    build_doc_tag_query_index_from_properties, clone_doc_properties, clone_doc_property,
    collect_doc_tag_properties_for_owners_in_index,
    collect_ownerless_doc_tag_properties_in_index, doc_props_view, props_have_owner,
};
use crate::lexical::{SalsaLexicalUseIndex, SalsaLexicalUseSummary};
use crate::members::segments_view;
use crate::semantic_solver::{SalsaSemanticResolveStateSummary, SalsaSemanticValueShellSummary};
use crate::module::{
    ExportTargetView, ModuleExportView, SalsaExportTargetSummary, SalsaModuleExportSummary, SalsaModuleSummary,
    clone_export, clone_export_target,
};
use crate::property::{
    PropertyOwnerView, PropertyView, SalsaPropertyIndexSummary, SalsaPropertyOwnerSummary, SalsaPropertyQueryIndex,
    SalsaPropertySummary, build_property_query_index, clone_properties, collect_properties_for_decl_in_index,
    collect_properties_for_member_in_index, owned_by_decl, owned_by_member, props_view,
};

verus! {

/// Something that documentation and properties can be about: a declaration (by
/// id), a member (by target handle) or a signature (by offset).
#[derive(Clone, Copy, Debug, PartialEq, Eq, Structural)]
pub enum SalsaSemanticTargetSummary {
    Decl(u32),
    Member(u32),
    Signature(u32),
}

/// Targets are ordered by variant (declarations, members, signatures), then by
/// id, handle or offset.
pub open spec fn spec_target_key(t: SalsaSemanticTargetSummary) -> int {
    match t {
        SalsaSemanticTargetSummary::Decl(d) => d as int,
        SalsaSemanticTargetSummary::Member(m) => 0x1_0000_0000 + m,
        SalsaSemanticTargetSummary::Signature(s) => 0x2_0000_0000 + s,
    }
}

/// Targets in strictly increasing order.
pub open spec fn targets_sorted(s: Seq<SalsaSemanticTargetSummary>) -> bool {
    forall|i: int, j: int| 0 <= i < j < s.len() ==> spec_target_key(#[trigger] s[i]) < spec_target_key(#[trigger] s[j])
}

pub proof fn lemma_target_key_injective(a: SalsaSemanticTargetSummary, b: SalsaSemanticTargetSummary)
    ensures
        spec_target_key(a) == spec_target_key(b) ==> a == b,
{
}

fn target_key(t: SalsaSemanticTargetSummary) -> (r: u64)
    ensures
        r == spec_target_key(t),
{
    match t {
        SalsaSemanticTargetSummary::Decl(d) => d as u64,
        SalsaSemanticTargetSummary::Member(m) => 0x1_0000_0000u64 + m as u64,
        SalsaSemanticTargetSummary::Signature(s) => 0x2_0000_0000u64 + s as u64,
    }
}

/// Inserts `x` into increasing targets, keeping them increasing; afterwards they
/// hold exactly the old targets and `x`.
fn insert_target(v: &mut Vec<SalsaSemanticTargetSummary>, x: SalsaSemanticTargetSummary)
    requires
        targets_sorted(old(v)@),
    ensures
        targets_sorted(final(v)@),
        forall|y: SalsaSemanticTargetSummary| #[trigger] final(v)@.contains(y) <==> (old(v)@.contains(y) || y == x),
{
    let kx = target_key(x);
    let mut i: usize = 0;
    while i < v.len() && target_key(v[i]) < kx
        invariant
            i <= v.len(),
            v@ == old(v)@,
            targets_sorted(v@),
            kx == spec_target_key(x),
            forall|k: int| 0 <= k < i ==> spec_target_key(#[trigger] v@[k]) < spec_target_key(x),
        decreases v.len() - i,
    {
        i = i + 1;
    }
    if i < v.len() && target_key(v[i]) == kx {
        proof { lemma_target_key_injective(v@[i as int], x); }
        assert(v@.contains(x)) by { assert(v@[i as int] == x); }
        return;
    }
    let ghost old_v = v@;
    assert(forall|k: int| i <= k < old_v.len() ==> spec_target_key(#[trigger] old_v[k]) > spec_target_key(x)) by {
        if i < old_v.len() {
            assert(spec_target_key(old_v[i as int]) > spec_target_key(x));
            assert forall|k: int| i <= k < old_v.len() implies spec_target_key(#[trigger] old_v[k]) > spec_target_key(x) by {
                if k > i {
                    assert(spec_target_key(old_v[i as int]) < spec_target_key(old_v[k]));
                }
            }
        }
    }
    v.insert(i, x);
    assert(targets_sorted(v@)) by {
        assert forall|a: int, b: int| 0 <= a < b < v@.len() implies spec_target_key(#[trigger] v@[a]) < spec_target_key(
            #[trigger] v@[b],
        ) by {
            if b < i {
                assert(v@[a] == old_v[a] && v@[b] == old_v[b]);
            } else if b == i {
                assert(v@[a] == old_v[a]);
            } else if a < i {
                assert(v@[a] == old_v[a] && v@[b] == old_v[b - 1]);
            } else if a == i {
                assert(v@[b] == old_v[b - 1]);
            } else {
                assert(v@[a] == old_v[a - 1] && v@[b] == old_v[b - 1]);
            }
        }
    }
    assert forall|y: SalsaSemanticTargetSummary| v@.contains(y) <==> (old_v.contains(y) || y == x) by {
        if v@.contains(y) {
            let k = choose|k: int| 0 <= k < v@.len() && v@[k] == y;
            if k < i {
                assert(old_v[k] == y);
            } else if k > i {
                assert(old_v[k - 1] == y);
            }
        }
        if old_v.contains(y) {
            let k = choose|k: int| 0 <= k < old_v.len() && old_v[k] == y;
            if k < i {
                assert(v@[k] == y);
            } else {
                assert(v@[k + 1] == y);
            }
        }
        if y == x {
            assert(v@[i as int] == x);
        }
    }
}

/// The target that a resolved documentation owner stands for, if it resolved to
/// exactly one.
pub open spec fn spec_target_from_resolution(r: ResolutionView) -> Option<SalsaSemanticTargetSummary> {
    match r {
        ResolutionView::Decl(d) => Some(SalsaSemanticTargetSummary::Decl(d)),
        ResolutionView::Member(m) => Some(SalsaSemanticTargetSummary::Member(m)),
        ResolutionView::Signature(s) => Some(SalsaSemanticTargetSummary::Signature(s)),
        _ => None,
    }
}

/// The target that a property belongs to, unless it belongs to a named type.
pub open spec fn spec_target_from_property(p: PropertyView) -> Option<SalsaSemanticTargetSummary> {
    match p.owner {
        PropertyOwnerView::Decl(d) => Some(SalsaSemanticTargetSummary::Decl(d)),
        PropertyOwnerView::Member(m) => Some(SalsaSemanticTargetSummary::Member(m)),
        PropertyOwnerView::Type(_) => None,
    }
}

/// `t` is a semantic target of the file: some documentation resolves to it or
/// some property belongs to it.
pub open spec fn spec_is_semantic_target(
    t: SalsaSemanticTargetSummary,
    properties: Seq<PropertyView>,
    bindings: Seq<ResolveView>,
) -> bool {
    ||| exists|i: int| 0 <= i < bindings.len() && spec_target_from_resolution(#[trigger] bindings[i].resolution) == Some(t)
    ||| exists|i: int| 0 <= i < properties.len() && spec_target_from_property(#[trigger] properties[i]) == Some(t)
}

/// The semantic targets of a file, increasing and each once.
pub fn collect_semantic_targets(
    properties: &SalsaPropertyIndexSummary,
    owner_resolve_index: &SalsaDocOwnerResolveIndex,
) -> (r: Vec<SalsaSemanticTargetSummary>)
    ensures
        targets_sorted(r@),
        forall|t: SalsaSemanticTargetSummary|
            #[trigger] r@.contains(t) <==> spec_is_semantic_target(
                t,
                props_view(properties.properties@),
                resolves_view(owner_resolve_index.bindings@),
            ),
{
    let ghost pv = props_view(properties.properties@);
    let ghost bv = resolves_view(owner_resolve_index.bindings@);
    let mut r: Vec<SalsaSemanticTargetSummary> = Vec::new();
    let mut i: usize = 0;
    while i < owner_resolve_index.bindings.len()
        invariant
            bv == resolves_view(owner_resolve_index.bindings@),
            i <= bv.len(),
            targets_sorted(r@),
            forall|t: SalsaSemanticTargetSummary|
                #[trigger] r@.contains(t) <==> exists|k: int|
                    0 <= k < i && spec_target_from_resolution(#[trigger] bv[k].resolution) == Some(t),
        decreases bv.len() - i,
    {
        assert(bv[i as int] == owner_resolve_index.bindings@[i as int]@);
        let ghost before = r@;
        let t = match owner_resolve_index.bindings[i].resolution {
            SalsaDocOwnerResolutionSummary::Decl(d) => Some(SalsaSemanticTargetSummary::Decl(d)),
            SalsaDocOwnerResolutionSummary::Member(m) => Some(SalsaSemanticTargetSummary::Member(m)),
            SalsaDocOwnerResolutionSummary::Signature(s) => Some(SalsaSemanticTargetSummary::Signature(s)),
            _ => None,
        };
        assert(t == spec_target_from_resolution(bv[i as int].resolution));
        if let Some(t) = t {
            insert_target(&mut r, t);
        }
        assert forall|u: SalsaSemanticTargetSummary| #[trigger] r@.contains(u) <==> exists|k: int|
            0 <= k < i + 1 && spec_target_from_resolution(#[trigger] bv[k].resolution) == Some(u) by {
            if r@.contains(u) && !before.contains(u) {
                assert(spec_target_from_resolution(bv[i as int].resolution) == Some(u));
            }
            if exists|k: int| 0 <= k < i + 1 && spec_target_from_resolution(#[trigger] bv[k].resolution) == Some(u) {
                let k = choose|k: int| 0 <= k < i + 1 && spec_target_from_resolution(#[trigger] bv[k].resolution) == Some(u);
                if k < i {
                    assert(before.contains(u));
                }
            }
        }
        i = i + 1;
    }
    let mut j: usize = 0;
    while j < properties.properties.len()
        invariant
            pv == props_view(properties.properties@),
            bv == resolves_view(owner_resolve_index.bindings@),
            j <= pv.len(),
            targets_sorted(r@),
            forall|t: SalsaSemanticTargetSummary|
                #[trigger] r@.contains(t) <==> (exists|k: int|
                    0 <= k < bv.len() && spec_target_from_resolution(#[trigger] bv[k].resolution) == Some(t)) || (
                exists|k: int| 0 <= k < j && spec_target_from_property(#[trigger] pv[k]) == Some(t)),
        decreases pv.len() - j,
    {
        assert(pv[j as int] == properties.properties@[j as int]@);
        let ghost before = r@;
        let t = match &properties.properties[j].owner {
            SalsaPropertyOwnerSummary::Decl { decl_id } => Some(SalsaSemanticTargetSummary::Decl(*decl_id)),
            SalsaPropertyOwnerSummary::Member(m) => Some(SalsaSemanticTargetSummary::Member(*m)),
            SalsaPropertyOwnerSummary::Type(_) => None,
        };
        assert(t == spec_target_from_property(pv[j as int]));
        if let Some(t) = t {
            insert_target(&mut r, t);
        }
        assert forall|u: SalsaSemanticTargetSummary| #[trigger] r@.contains(u) <==> (exists|k: int|
            0 <= k < bv.len() && spec_target_from_resolution(#[trigger] bv[k].resolution) == Some(u)) || (exists|k: int|
            0 <= k < j + 1 && spec_target_from_property(#[trigger] pv[k]) == Some(u)) by {
            if r@.contains(u) && !before.contains(u) {
                assert(spec_target_from_property(pv[j as int]) == Some(u));
            }
            if exists|k: int| 0 <= k < j + 1 && spec_target_from_property(#[trigger] pv[k]) == Some(u) {
                let k = choose|k: int| 0 <= k < j + 1 && spec_target_from_property(#[trigger] pv[k]) == Some(u);
                if k < j {
                    assert(before.contains(u));
                }
            }
        }
        j = j + 1;
    }
    r
}

/// The targets that a module export stands for, as listed: the exported
/// declaration, member or global variable's declaration; a global function's
/// declaration (if any) and signature; a closure's signature; nothing for a table.
pub open spec fn spec_export_target_list(e: ModuleExportView) -> Seq<SalsaSemanticTargetSummary> {
    match e {
        ModuleExportView::LocalDecl { decl_id, .. } => seq![SalsaSemanticTargetSummary::Decl(decl_id)],
        ModuleExportView::Member(m) => seq![SalsaSemanticTargetSummary::Member(m.target_handle)],
        ModuleExportView::GlobalVariable(v) => seq![SalsaSemanticTargetSummary::Decl(v.decl_id)],
        ModuleExportView::GlobalFunction(f) => match f.decl_id {
            Some(d) => seq![
                SalsaSemanticTargetSummary::Decl(d),
                SalsaSemanticTargetSummary::Signature(f.signature_offset),
            ],
            None => seq![SalsaSemanticTargetSummary::Signature(f.signature_offset)],
        },
        ModuleExportView::Closure { signature_offset } => seq![SalsaSemanticTargetSummary::Signature(signature_offset)],
        ModuleExportView::Table { .. } => Seq::empty(),
    }
}

/// The targets that a module export stands for, increasing and each once.
pub fn semantic_targets_from_module_export(export: &SalsaModuleExportSummary) -> (r: Vec<SalsaSemanticTargetSummary>)
    ensures
        targets_sorted(r@),
        forall|t: SalsaSemanticTargetSummary| #[trigger] r@.contains(t) <==> spec_export_target_list(export@).contains(t),
{
    let mut r: Vec<SalsaSemanticTargetSummary> = Vec::new();
    let ghost list = spec_export_target_list(export@);
    match export {
        SalsaModuleExportSummary::LocalDecl { decl_id, .. } => {
            insert_target(&mut r, SalsaSemanticTargetSummary::Decl(*decl_id));
            assert(list[0] == SalsaSemanticTargetSummary::Decl(*decl_id));
        },
        SalsaModuleExportSummary::Member(member) => {
            insert_target(&mut r, SalsaSemanticTargetSummary::Member(member.target_handle));
            assert(list[0] == SalsaSemanticTargetSummary::Member(member.target_handle));
        },
        SalsaModuleExportSummary::GlobalVariable(variable) => {
            insert_target(&mut r, SalsaSemanticTargetSummary::Decl(variable.decl_id));
            assert(list[0] == SalsaSemanticTargetSummary::Decl(variable.decl_id));
        },
        SalsaModuleExportSummary::GlobalFunction(function) => {
            if let Some(decl_id) = function.decl_id {
                insert_target(&mut r, SalsaSemanticTargetSummary::Decl(decl_id));
                assert(list[0] == SalsaSemanticTargetSummary::Decl(decl_id));
                assert(list[1] == SalsaSemanticTargetSummary::Signature(function.signature_offset));
            } else {
                assert(list[0] == SalsaSemanticTargetSummary::Signature(function.signature_offset));
            }
            insert_target(&mut r, SalsaSemanticTargetSummary::Signature(function.signature_offset));
        },
        SalsaModuleExportSummary::Closure { signature_offset } => {
            insert_target(&mut r, SalsaSemanticTargetSummary::Signature(*signature_offset));
            assert(list[0] == SalsaSemanticTargetSummary::Signature(*signature_offset));
        },
        SalsaModuleExportSummary::Table { .. } => {},
    }
    r
}

/// The modules that a file requires, by path, in order of first use.
pub open spec fn spec_required_modules(uses: Seq<SalsaLexicalUseSummary>) -> Seq<Seq<char>>
    decreases uses.len(),
{
    if uses.len() == 0 {
        Seq::empty()
    } else {
        let prev = spec_required_modules(uses.drop_last());
        match uses.last() {
            SalsaLexicalUseSummary::Call { require_path: Some(p), .. } => if prev.contains(p@) {
                prev
            } else {
                prev.push(p@)
            },
            _ => prev,
        }
    }
}

fn strings_contain(v: &Vec<String>, s: &String) -> (r: bool)
    ensures
        r == segments_view(v@).contains(s@),
{
    let mut i: usize = 0;
    while i < v.len()
        invariant
            i <= v@.len(),
            forall|k: int| 0 <= k < i ==> v@[k]@ != s@,
        decreases v@.len() - i,
    {
        if v[i] == *s {
            assert(segments_view(v@)[i as int] == s@);
            return true;
        }
        i = i + 1;
    }
    assert forall|k: int| 0 <= k < segments_view(v@).len() implies segments_view(v@)[k] != s@ by {
        assert(segments_view(v@)[k] == v@[k]@);
    }
    false
}

/// The modules that the uses require, by path, each once, in order of first use.
pub fn collect_required_modules(lexical_uses: &SalsaLexicalUseIndex) -> (r: Vec<String>)
    ensures
        segments_view(r@) == spec_required_modules(lexical_uses.uses@),
{
    let ghost u = lexical_uses.uses@;
    let mut r: Vec<String> = Vec::new();
    let mut i: usize = 0;
    while i < lexical_uses.uses.len()
        invariant
            u == lexical_uses.uses@,
            i <= u.len(),
            segments_view(r@) == spec_required_modules(u.take(i as int)),
        decreases u.len() - i,
    {
        assert(u.take(i + 1).drop_last() =~= u.take(i as int));
        assert(u.take(i + 1).last() == u[i as int]);
        match &lexical_uses.uses[i] {
            SalsaLexicalUseSummary::Call { require_path: Some(p), .. } => {
                if !strings_contain(&r, p) {
                    let ghost before = r@;
                    r.push(p.clone());
                    assert(segments_view(r@) =~= segments_view(before).push(p@));
                }
            },
            _ => {},
        }
        i = i + 1;
    }
    assert(u.take(i as int) =~= u);
    r
}

/// Two increasing sequences of targets with the same elements are equal.
pub proof fn lemma_targets_sorted_eq(a: Seq<SalsaSemanticTargetSummary>, b: Seq<SalsaSemanticTargetSummary>)
    requires
        targets_sorted(a),
        targets_sorted(b),
        forall|x: SalsaSemanticTargetSummary| a.contains(x) <==> b.contains(x),
    ensures
        a == b,
    decreases a.len() + b.len(),
{
    if a.len() == 0 {
        if b.len() > 0 {
            assert(b.contains(b[0]));
        }
        assert(a =~= b);
    } else if b.len() == 0 {
        assert(a.contains(a[0]));
    } else {
        assert(a.contains(b[0]));
        assert(b.contains(a[0]));
        let ia = choose|i: int| 0 <= i < a.len() && a[i] == b[0];
        let ib = choose|i: int| 0 <= i < b.len() && b[i] == a[0];
        if ia > 0 {
            assert(spec_target_key(a[0]) < spec_target_key(a[ia]));
        }
        if ib > 0 {
            assert(spec_target_key(b[0]) < spec_target_key(b[ib]));
        }
        lemma_target_key_injective(a[0], b[0]);
        assert(a[0] == b[0]);
        let a1 = a.drop_first();
        let b1 = b.drop_first();
        assert forall|x: SalsaSemanticTargetSummary| a1.contains(x) <==> b1.contains(x) by {
            if a1.contains(x) {
                let i = choose|i: int| 0 <= i < a1.len() && a1[i] == x;
                assert(a[i + 1] == x);
                assert(spec_target_key(a[0]) < spec_target_key(x));
                assert(b.contains(x));
                let j = choose|j: int| 0 <= j < b.len() && b[j] == x;
                assert(j != 0);
                assert(b1[j - 1] == x);
            }
            if b1.contains(x) {
                let i = choose|i: int| 0 <= i < b1.len() && b1[i] == x;
                assert(b[i + 1] == x);
                assert(spec_target_key(b[0]) < spec_target_key(x));
                assert(a.contains(x));
                let j = choose|j: int| 0 <= j < a.len() && a[j] == x;
                assert(j != 0);
                assert(a1[j - 1] == x);
            }
        }
        lemma_targets_sorted_eq(a1, b1);
        assert(a =~= seq![a[0]] + a1);
        assert(b =~= seq![b[0]] + b1);
    }
}

/// The increasing sequence of the distinct targets in `list`.
pub open spec fn spec_sorted_targets(list: Seq<SalsaSemanticTargetSummary>) -> Seq<SalsaSemanticTargetSummary> {
    choose|ts: Seq<SalsaSemanticTargetSummary>|
        targets_sorted(ts) && forall|t: SalsaSemanticTargetSummary| #[trigger] ts.contains(t) <==> list.contains(t)
}

pub proof fn lemma_spec_sorted_targets(list: Seq<SalsaSemanticTargetSummary>, r: Seq<SalsaSemanticTargetSummary>)
    requires
        targets_sorted(r),
        forall|t: SalsaSemanticTargetSummary| #[trigger] r.contains(t) <==> list.contains(t),
    ensures
        spec_sorted_targets(list) == r,
{
    let ts = spec_sorted_targets(list);
    assert(targets_sorted(ts) && forall|t: SalsaSemanticTargetSummary| #[trigger] ts.contains(t) <==> list.contains(t));
    lemma_targets_sorted_eq(ts, r);
}

/// `r` documents `t`.
pub open spec fn resolves_to_target(r: ResolveView, t: SalsaSemanticTargetSummary) -> bool {
    match t {
        SalsaSemanticTargetSummary::Decl(d) => resolves_to_decl(r, d),
        SalsaSemanticTargetSummary::Member(m) => resolves_to_member(r, m),
        SalsaSemanticTargetSummary::Signature(s) => resolves_to_signature(r, s),
    }
}

pub open spec fn target_filter(t: SalsaSemanticTargetSummary) -> spec_fn(ResolveView) -> bool {
    |r: ResolveView| resolves_to_target(r, t)
}

/// The documentation owner of a resolved binding.
pub open spec fn spec_owner_of_resolve(r: ResolveView) -> SalsaDocOwnerSummary {
    SalsaDocOwnerSummary { kind: r.owner_kind, syntax_offset: Some(r.owner_offset) }
}

/// Some binding of `s` is owned by `o`.
pub open spec fn resolves_have_owner(s: Seq<ResolveView>, o: SalsaDocOwnerSummary) -> bool {
    exists|k: int| 0 <= k < s.len() && spec_owner_of_resolve(#[trigger] s[k]) == o
}

/// The first binding of each owner, in order.
pub open spec fn spec_first_per_owner(s: Seq<ResolveView>) -> Seq<ResolveView>
    decreases s.len(),
{
    if s.len() == 0 {
        Seq::empty()
    } else {
        let prev = spec_first_per_owner(s.drop_last());
        if resolves_have_owner(prev, spec_owner_of_resolve(s.last())) {
            prev
        } else {
            prev.push(s.last())
        }
    }
}

/// The bindings that document each target in turn.
pub open spec fn spec_resolves_for_targets(ts: Seq<SalsaSemanticTargetSummary>, bindings: Seq<ResolveView>) -> Seq<
    ResolveView,
>
    decreases ts.len(),
{
    if ts.len() == 0 {
        Seq::empty()
    } else {
        spec_resolves_for_targets(ts.drop_last(), bindings) + bindings.filter(target_filter(ts.last()))
    }
}

/// The documentation of the targets: the first binding of each owner among the
/// bindings that document them, taken target by target.
pub open spec fn spec_targets_doc_owners(ts: Seq<SalsaSemanticTargetSummary>, bindings: Seq<ResolveView>) -> Seq<
    ResolveView,
> {
    spec_first_per_owner(spec_resolves_for_targets(ts, bindings))
}

/// The tag properties whose owner owns one of `owners`.
pub open spec fn owned_by_any(owners: Seq<ResolveView>) -> spec_fn(DocPropertyView) -> bool {
    |p: DocPropertyView| resolves_have_owner(owners, p.owner)
}

fn owner_resolves_for_target(owner_resolve_index: &SalsaDocOwnerResolveIndex, target: SalsaSemanticTargetSummary) -> (r:
    Vec<SalsaDocOwnerResolveSummary>)
    ensures
        resolves_view(r@) == resolves_view(owner_resolve_index.bindings@).filter(target_filter(target)),
{
    match target {
        SalsaSemanticTargetSummary::Decl(d) => {
            assert((|x: ResolveView| resolves_to_decl(x, d)) =~= target_filter(target));
            collect_doc_owner_resolves_for_decl(owner_resolve_index, d)
        },
        SalsaSemanticTargetSummary::Member(m) => {
            assert((|x: ResolveView| resolves_to_member(x, m)) =~= target_filter(target));
            collect_doc_owner_resolves_for_member(owner_resolve_index, m)
        },
        SalsaSemanticTargetSummary::Signature(s) => {
            assert((|x: ResolveView| resolves_to_signature(x, s)) =~= target_filter(target));
            collect_doc_owner_resolves_for_signature(owner_resolve_index, s)
        },
    }
}

struct SalsaSemanticResolutionIndex {
    semantic_targets: Vec<SalsaSemanticTargetSummary>,
    doc_owners: Vec<SalsaDocOwnerResolveSummary>,
    doc_owner_summaries: Vec<SalsaDocOwnerSummary>,
}

fn owners_contain(v: &Vec<SalsaDocOwnerSummary>, o: &SalsaDocOwnerSummary) -> (r: bool)
    ensures
        r == v@.contains(*o),
{
    let mut i: usize = 0;
    while i < v.len()
        invariant
            i <= v@.len(),
            forall|k: int| 0 <= k < i ==> v@[k] != *o,
        decreases v@.len() - i,
    {
        if v[i] == *o {
            assert(v@[i as int] == *o);
            return true;
        }
        i = i + 1;
    }
    false
}

fn build_semantic_resolution_index(
    targets: &Vec<SalsaSemanticTargetSummary>,
    owner_resolve_index: &SalsaDocOwnerResolveIndex,
) -> (r: SalsaSemanticResolutionIndex)
    ensures
        r.semantic_targets@ == targets@,
        resolves_view(r.doc_owners@) == spec_targets_doc_owners(targets@, resolves_view(owner_resolve_index.bindings@)),
        forall|o: SalsaDocOwnerSummary| #[trigger] r.doc_owner_summaries@.contains(o) <==> resolves_have_owner(
            resolves_view(r.doc_owners@),
            o,
        ),
{
    let ghost bv = resolves_view(owner_resolve_index.bindings@);
    let mut doc_owners: Vec<SalsaDocOwnerResolveSummary> = Vec::new();
    let mut summaries: Vec<SalsaDocOwnerSummary> = Vec::new();
    let mut k: usize = 0;
    while k < targets.len()
        invariant
            bv == resolves_view(owner_resolve_index.bindings@),
            k <= targets@.len(),
            resolves_view(doc_owners@) == spec_first_per_owner(spec_resolves_for_targets(targets@.take(k as int), bv)),
            summaries@.len() == doc_owners@.len(),
            forall|i: int| 0 <= i < summaries@.len() ==> #[trigger] summaries@[i] == spec_owner_of_resolve(
                resolves_view(doc_owners@)[i],
            ),
        decreases targets@.len() - k,
    {
        let ghost done = spec_resolves_for_targets(targets@.take(k as int), bv);
        let resolves = owner_resolves_for_target(owner_resolve_index, targets[k]);
        let ghost rv = resolves_view(resolves@);
        let mut j: usize = 0;
        while j < resolves.len()
            invariant
                rv == resolves_view(resolves@),
                j <= rv.len(),
                resolves_view(doc_owners@) == spec_first_per_owner(done + rv.take(j as int)),
                summaries@.len() == doc_owners@.len(),
                forall|i: int| 0 <= i < summaries@.len() ==> #[trigger] summaries@[i] == spec_owner_of_resolve(
                    resolves_view(doc_owners@)[i],
                ),
            decreases rv.len() - j,
        {
            let ghost next = done + rv.take(j + 1);
            assert(next.drop_last() =~= done + rv.take(j as int));
            assert(next.last() == rv[j as int]);
            assert(rv[j as int] == resolves@[j as int]@);
            let resolve = &resolves[j];
            let owner = SalsaDocOwnerSummary { kind: resolve.owner_kind, syntax_offset: Some(resolve.owner_offset) };
            assert(owner == spec_owner_of_resolve(rv[j as int]));
            let ghost dv = resolves_view(doc_owners@);
            assert(summaries@.contains(owner) == resolves_have_owner(dv, owner)) by {
                if summaries@.contains(owner) {
                    let i = choose|i: int| 0 <= i < summaries@.len() && summaries@[i] == owner;
                    assert(spec_owner_of_resolve(dv[i]) == owner);
                }
                if resolves_have_owner(dv, owner) {
                    let i = choose|i: int| 0 <= i < dv.len() && spec_owner_of_resolve(#[trigger] dv[i]) == owner;
                    assert(summaries@[i] == owner);
                }
            }
            if !owners_contain(&summaries, &owner) {
                summaries.push(owner);
                doc_owners.push(clone_resolve(resolve));
                assert(resolves_view(doc_owners@) =~= dv.push(rv[j as int]));
            }
            j = j + 1;
        }
        assert(rv.take(j as int) =~= rv);
        assert(targets@.take(k + 1).drop_last() =~= targets@.take(k as int));
        assert(targets@.take(k + 1).last() == targets@[k as int]);
        k = k + 1;
    }
    assert(targets@.take(k as int) =~= targets@);
    proof {
        let dv = resolves_view(doc_owners@);
        assert forall|o: SalsaDocOwnerSummary| #[trigger] summaries@.contains(o) <==> resolves_have_owner(dv, o) by {
            if summaries@.contains(o) {
                let i = choose|i: int| 0 <= i < summaries@.len() && summaries@[i] == o;
                assert(spec_owner_of_resolve(dv[i]) == o);
            }
            if resolves_have_owner(dv, o) {
                let i = choose|i: int| 0 <= i < dv.len() && spec_owner_of_resolve(#[trigger] dv[i]) == o;
                assert(summaries@[i] == o);
            }
        }
    }
    SalsaSemanticResolutionIndex { semantic_targets: targets.clone(), doc_owners, doc_owner_summaries: summaries }
}

/// A semantic target and what the file says of it: the bindings that document
/// it (the first of each owner), the tag properties of those owners, and the
/// properties that belong to it.
#[derive(Clone, Debug)]
pub struct SalsaSemanticTargetInfoSummary {
    pub target: SalsaSemanticTargetSummary,
    pub doc_owners: Vec<SalsaDocOwnerResolveSummary>,
    pub tag_properties: Vec<SalsaDocTagPropertySummary>,
    pub properties: Vec<SalsaPropertySummary>,
}

pub struct TargetInfoView {
    pub target: SalsaSemanticTargetSummary,
    pub doc_owners: Seq<ResolveView>,
    pub tag_properties: Seq<DocPropertyView>,
    pub properties: Seq<PropertyView>,
}

impl View for SalsaSemanticTargetInfoSummary {
    type V = TargetInfoView;

    open spec fn view(&self) -> TargetInfoView {
        TargetInfoView {
            target: self.target,
            doc_owners: resolves_view(self.doc_owners@),
            tag_properties: doc_props_view(self.tag_properties@),
            properties: props_view(self.properties@),
        }
    }
}

/// The properties of a target: those of its declaration or member; none for a
/// signature.
pub open spec fn spec_target_properties(properties: Seq<PropertyView>, t: SalsaSemanticTargetSummary) -> Seq<
    PropertyView,
> {
    match t {
        SalsaSemanticTargetSummary::Decl(d) => properties.filter(|p: PropertyView| owned_by_decl(p, d)),
        SalsaSemanticTargetSummary::Member(m) => properties.filter(|p: PropertyView| owned_by_member(p, m)),
        SalsaSemanticTargetSummary::Signature(_) => Seq::empty(),
    }
}

/// What a file says of the target `t`.
pub open spec fn spec_target_info(
    t: SalsaSemanticTargetSummary,
    properties: Seq<PropertyView>,
    tag_properties: Seq<DocPropertyView>,
    bindings: Seq<ResolveView>,
) -> TargetInfoView {
    let owners = spec_targets_doc_owners(seq![t], bindings);
    TargetInfoView {
        target: t,
        doc_owners: owners,
        tag_properties: tag_properties.filter(owned_by_any(owners)),
        properties: spec_target_properties(properties, t),
    }
}

fn properties_for_target(properties: &SalsaPropertyQueryIndex, target: SalsaSemanticTargetSummary) -> (r: Vec<
    SalsaPropertySummary,
>)
    ensures
        props_view(r@) == spec_target_properties(props_view(properties.properties@), target),
{
    match target {
        SalsaSemanticTargetSummary::Decl(d) => collect_properties_for_decl_in_index(properties, d),
        SalsaSemanticTargetSummary::Member(m) => collect_properties_for_member_in_index(properties, m),
        SalsaSemanticTargetSummary::Signature(_) => {
            let r: Vec<SalsaPropertySummary> = Vec::new();
            assert(props_view(r@) =~= Seq::<PropertyView>::empty());
            r
        },
    }
}

fn tag_properties_for_owners(
    semantic_index: &SalsaSemanticResolutionIndex,
    tag_properties: &SalsaDocTagQueryIndex,
) -> (r: Vec<SalsaDocTagPropertySummary>)
    requires
        forall|o: SalsaDocOwnerSummary| #[trigger] semantic_index.doc_owner_summaries@.contains(o) <==> resolves_have_owner(
            resolves_view(semantic_index.doc_owners@),
            o,
        ),
    ensures
        doc_props_view(r@) == doc_props_view(tag_properties.properties@).filter(
            owned_by_any(resolves_view(semantic_index.doc_owners@)),
        ),
{
    let owners = semantic_index.doc_owner_summaries.as_slice();
    let r = collect_doc_tag_properties_for_owners_in_index(tag_properties, owners);
    assert((|p: DocPropertyView| owners@.contains(p.owner)) =~= owned_by_any(resolves_view(semantic_index.doc_owners@)));
    r
}

fn build_target_info(
    target: SalsaSemanticTargetSummary,
    property_index: &SalsaPropertyQueryIndex,
    tag_index: &SalsaDocTagQueryIndex,
    owner_resolve_index: &SalsaDocOwnerResolveIndex,
) -> (r: SalsaSemanticTargetInfoSummary)
    ensures
        r@ == spec_target_info(
            target,
            props_view(property_index.properties@),
            doc_props_view(tag_index.properties@),
            resolves_view(owner_resolve_index.bindings@),
        ),
{
    let mut targets: Vec<SalsaSemanticTargetSummary> = Vec::new();
    targets.push(target);
    assert(targets@ =~= seq![target]);
    let semantic_index = build_semantic_resolution_index(&targets, owner_resolve_index);
    let tag_properties = tag_properties_for_owners(&semantic_index, tag_index);
    let properties = properties_for_target(property_index, target);
    SalsaSemanticTargetInfoSummary { target, doc_owners: semantic_index.doc_owners, tag_properties, properties }
}

pub open spec fn ownerless() -> spec_fn(DocPropertyView) -> bool {
    |p: DocPropertyView| p.owner.syntax_offset is None
}

pub open spec fn owner_positioned() -> spec_fn(DocPropertyView) -> bool {
    |p: DocPropertyView| p.owner.syntax_offset is Some
}

/// Appends to `seen` the properties of `s` in turn, each unless a property of its
/// owner is already there; gives what was appended.
pub open spec fn spec_push_new_owners(seen: Seq<DocPropertyView>, s: Seq<DocPropertyView>) -> Seq<DocPropertyView>
    decreases s.len(),
{
    if s.len() == 0 {
        Seq::empty()
    } else {
        let prev = spec_push_new_owners(seen, s.drop_last());
        if props_have_owner(seen + prev, s.last().owner) {
            prev
        } else {
            prev.push(s.last())
        }
    }
}

/// The tag properties of a module export: those of the file, then those of the
/// export's documentation owners (each owner once); where the export has none,
/// the one property of a documented statement if there is exactly one.
pub open spec fn spec_module_export_tag_properties(
    tag_properties: Seq<DocPropertyView>,
    owners: Seq<ResolveView>,
) -> Seq<DocPropertyView> {
    let collected = tag_properties.filter(ownerless());
    let matched = tag_properties.filter(owned_by_any(owners));
    if matched.len() == 0 {
        let positioned = tag_properties.filter(owner_positioned());
        if positioned.len() == 1 && !props_have_owner(collected, positioned[0].owner) {
            collected.push(positioned[0])
        } else {
            collected
        }
    } else {
        collected + spec_push_new_owners(collected, matched)
    }
}

fn doc_props_contain_owner(v: &Vec<SalsaDocTagPropertySummary>, o: &SalsaDocOwnerSummary) -> (r: bool)
    ensures
        r == props_have_owner(doc_props_view(v@), *o),
{
    let ghost dv = doc_props_view(v@);
    let mut i: usize = 0;
    while i < v.len()
        invariant
            dv == doc_props_view(v@),
            i <= v@.len(),
            forall|k: int| 0 <= k < i ==> (#[trigger] dv[k]).owner != *o,
        decreases v@.len() - i,
    {
        assert(dv[i as int] == v@[i as int]@);
        if v[i].owner == *o {
            return true;
        }
        i = i + 1;
    }
    false
}

fn module_export_tag_properties(
    semantic_index: &SalsaSemanticResolutionIndex,
    tag_properties: &SalsaDocTagQueryIndex,
) -> (r: Vec<SalsaDocTagPropertySummary>)
    requires
        forall|o: SalsaDocOwnerSummary| #[trigger] semantic_index.doc_owner_summaries@.contains(o) <==> resolves_have_owner(
            resolves_view(semantic_index.doc_owners@),
            o,
        ),
    ensures
        doc_props_view(r@) == spec_module_export_tag_properties(
            doc_props_view(tag_properties.properties@),
            resolves_view(semantic_index.doc_owners@),
        ),
{
    let ghost tv = doc_props_view(tag_properties.properties@);
    let mut collected = collect_ownerless_doc_tag_properties_in_index(tag_properties);
    assert((|p: DocPropertyView| p.owner.syntax_offset is None) =~= ownerless());
    let ghost collected0 = doc_props_view(collected@);
    let matched = tag_properties_for_owners(semantic_index, tag_properties);
    let ghost mv = doc_props_view(matched@);
    if matched.len() == 0 {
        let mut count: usize = 0;
        let mut first: Option<usize> = None;
        let mut i: usize = 0;
        while i < tag_properties.properties.len()
            invariant
                tv == doc_props_view(tag_properties.properties@),
                i <= tv.len(),
                count == tv.take(i as int).filter(owner_positioned()).len(),
                count <= i,
                match first {
                    Some(f) => f < i && count > 0 && tv[f as int] == tv.take(i as int).filter(owner_positioned())[0],
                    None => count == 0,
                },
            decreases tv.len() - i,
        {
            proof { crate::lexical::lemma_filter_take_step(tv, owner_positioned(), i as int); }
            assert(tv[i as int] == tag_properties.properties@[i as int]@);
            if tag_properties.properties[i].owner.syntax_offset.is_some() {
                if first.is_none() {
                    first = Some(i);
                }
                count = count + 1;
            }
            i = i + 1;
        }
        assert(tv.take(i as int) =~= tv);
        if count == 1 {
            match first {
                Some(f) => {
                    let owner = tag_properties.properties[f].owner;
                    assert(tv[f as int] == tag_properties.properties@[f as int]@);
                    if !doc_props_contain_owner(&collected, &owner) {
                        let ghost before = doc_props_view(collected@);
                        collected.push(clone_doc_property(&tag_properties.properties[f]));
                        assert(doc_props_view(collected@) =~= before.push(tv[f as int]));
                    }
                },
                None => {},
            }
        }
        collected
    } else {
        let mut k: usize = 0;
        while k < matched.len()
            invariant
                mv == doc_props_view(matched@),
                k <= mv.len(),
                doc_props_view(collected@) == collected0 + spec_push_new_owners(collected0, mv.take(k as int)),
            decreases mv.len() - k,
        {
            let ghost next = mv.take(k + 1);
            assert(next.drop_last() =~= mv.take(k as int));
            assert(next.last() == mv[k as int]);
            assert(mv[k as int] == matched@[k as int]@);
            let owner = matched[k].owner;
            if !doc_props_contain_owner(&collected, &owner) {
                let ghost before = doc_props_view(collected@);
                collected.push(clone_doc_property(&matched[k]));
                assert(doc_props_view(collected@) =~= before.push(mv[k as int]));
                assert(collected0 + spec_push_new_owners(collected0, mv.take(k as int)).push(mv[k as int]) =~= before.push(
                    mv[k as int],
                ));
            }
            k = k + 1;
        }
        assert(mv.take(k as int) =~= mv);
        collected
    }
}

/// What a file's module export stands for: the export as written and as
/// resolved, its first target, the bindings that document its targets, and its
/// tag properties.
#[derive(Clone, Debug)]
pub struct SalsaModuleExportSemanticSummary {
    pub export_target: SalsaExportTargetSummary,
    pub export: SalsaModuleExportSummary,
    pub semantic_target: Option<SalsaSemanticTargetSummary>,
    pub doc_owners: Vec<SalsaDocOwnerResolveSummary>,
    pub tag_properties: Vec<SalsaDocTagPropertySummary>,
}

pub struct ModuleExportSemanticView {
    pub export_target: ExportTargetView,
    pub export: ModuleExportView,
    pub semantic_target: Option<SalsaSemanticTargetSummary>,
    pub doc_owners: Seq<ResolveView>,
    pub tag_properties: Seq<DocPropertyView>,
}

impl View for SalsaModuleExportSemanticSummary {
    type V = ModuleExportSemanticView;

    open spec fn view(&self) -> ModuleExportSemanticView {
        ModuleExportSemanticView {
            export_target: self.export_target@,
            export: self.export@,
            semantic_target: self.semantic_target,
            doc_owners: resolves_view(self.doc_owners@),
            tag_properties: doc_props_view(self.tag_properties@),
        }
    }
}

pub open spec fn opt_module_export_semantic_view(m: Option<SalsaModuleExportSemanticSummary>) -> Option<
    ModuleExportSemanticView,
> {
    match m {
        Some(m) => Some(m@),
        None => None,
    }
}

/// What a module export stands for, where the module has both its export target
/// and its export.
pub open spec fn spec_module_export_semantic(
    module: SalsaModuleSummary,
    tag_properties: Seq<DocPropertyView>,
    bindings: Seq<ResolveView>,
) -> Option<ModuleExportSemanticView> {
    match (module.export_target, module.export) {
        (Some(t), Some(e)) => {
            let ts = spec_sorted_targets(spec_export_target_list(e@));
            let owners = spec_targets_doc_owners(ts, bindings);
            Some(
                ModuleExportSemanticView {
                    export_target: t@,
                    export: e@,
                    semantic_target: if ts.len() > 0 { Some(ts[0]) } else { None },
                    doc_owners: owners,
                    tag_properties: spec_module_export_tag_properties(tag_properties, owners),
                },
            )
        },
        _ => None,
    }
}

fn build_module_export_semantic(
    module: &SalsaModuleSummary,
    owner_resolve_index: &SalsaDocOwnerResolveIndex,
    tag_properties: &SalsaDocTagQueryIndex,
) -> (r: Option<SalsaModuleExportSemanticSummary>)
    ensures
        opt_module_export_semantic_view(r) == spec_module_export_semantic(
            *module,
            doc_props_view(tag_properties.properties@),
            resolves_view(owner_resolve_index.bindings@),
        ),
{
    let export_target = match &module.export_target {
        Some(t) => clone_export_target(t),
        None => return None,
    };
    let export = match &module.export {
        Some(e) => clone_export(e),
        None => return None,
    };
    let targets = semantic_targets_from_module_export(&export);
    proof { lemma_spec_sorted_targets(spec_export_target_list(export@), targets@); }
    let semantic_index = build_semantic_resolution_index(&targets, owner_resolve_index);
    let semantic_target = if targets.len() > 0 { Some(targets[0]) } else { None };
    let tag_properties = module_export_tag_properties(&semantic_index, tag_properties);
    Some(
        SalsaModuleExportSemanticSummary {
            export_target,
            export,
            semantic_target,
            doc_owners: semantic_index.doc_owners,
            tag_properties,
        },
    )
}

/// The increasing sequence of a file's semantic targets.
pub open spec fn spec_semantic_targets(properties: Seq<PropertyView>, bindings: Seq<ResolveView>) -> Seq<
    SalsaSemanticTargetSummary,
> {
    choose|ts: Seq<SalsaSemanticTargetSummary>|
        targets_sorted(ts) && forall|t: SalsaSemanticTargetSummary|
            #[trigger] ts.contains(t) <==> spec_is_semantic_target(t, properties, bindings)
}

/// The semantic summary of a file.
#[derive(Clone, Debug)]
pub struct SalsaSingleFileSemanticSummary {
    pub file_tag_properties: Vec<SalsaDocTagPropertySummary>,
    pub required_modules: Vec<String>,
    pub targets: Vec<SalsaSemanticTargetInfoSummary>,
    pub module_export: Option<SalsaModuleExportSemanticSummary>,
}

/// Builds the semantic summary of a file: its tag properties as given, the
/// modules it requires, what it says of each of its semantic targets (in
/// increasing order), and what its module export stands for.
pub fn build_single_file_semantic_summary(
    properties: &SalsaPropertyIndexSummary,
    owner_resolve_index: &SalsaDocOwnerResolveIndex,
    lexical_uses: &SalsaLexicalUseIndex,
    tag_properties: &[SalsaDocTagPropertySummary],
    module: Option<&SalsaModuleSummary>,
) -> (r: SalsaSingleFileSemanticSummary)
    ensures
        doc_props_view(r.file_tag_properties@) == doc_props_view(tag_properties@),
        segments_view(r.required_modules@) == spec_required_modules(lexical_uses.uses@),
        r.targets@.len() == spec_semantic_targets(
            props_view(properties.properties@),
            resolves_view(owner_resolve_index.bindings@),
        ).len(),
        forall|i: int|
            0 <= i < r.targets@.len() ==> #[trigger] r.targets@[i]@ == spec_target_info(
                spec_semantic_targets(props_view(properties.properties@), resolves_view(owner_resolve_index.bindings@))[i],
                props_view(properties.properties@),
                doc_props_view(tag_properties@),
                resolves_view(owner_resolve_index.bindings@),
            ),
        opt_module_export_semantic_view(r.module_export) == match module {
            Some(m) => spec_module_export_semantic(
                *m,
                doc_props_view(tag_properties@),
                resolves_view(owner_resolve_index.bindings@),
            ),
            None => None,
        },
{
    let ghost pv = props_view(properties.properties@);
    let ghost bv = resolves_view(owner_resolve_index.bindings@);
    let ghost tv = doc_props_view(tag_properties@);
    let property_index = build_property_query_index(properties);
    let tag_index = build_doc_tag_query_index_from_properties(tag_properties);
    let semantic_targets = collect_semantic_targets(properties, owner_resolve_index);
    proof {
        let ts = spec_semantic_targets(pv, bv);
        assert(targets_sorted(ts) && forall|t: SalsaSemanticTargetSummary|
            #[trigger] ts.contains(t) <==> spec_is_semantic_target(t, pv, bv));
        lemma_targets_sorted_eq(ts, semantic_targets@);
    }
    let mut targets: Vec<SalsaSemanticTargetInfoSummary> = Vec::new();
    let mut i: usize = 0;
    while i < semantic_targets.len()
        invariant
            pv == props_view(properties.properties@),
            bv == resolves_view(owner_resolve_index.bindings@),
            tv == doc_props_view(tag_properties@),
            props_view(property_index.properties@) == pv,
            doc_props_view(tag_index.properties@) == tv,
            i <= semantic_targets@.len(),
            targets@.len() == i,
            forall|k: int|
                0 <= k < i ==> #[trigger] targets@[k]@ == spec_target_info(semantic_targets@[k], pv, tv, bv),
        decreases semantic_targets@.len() - i,
    {
        targets.push(build_target_info(semantic_targets[i], &property_index, &tag_index, owner_resolve_index));
        i = i + 1;
    }
    let module_export = match module {
        Some(m) => build_module_export_semantic(m, owner_resolve_index, &tag_index),
        None => None,
    };
    SalsaSingleFileSemanticSummary {
        file_tag_properties: clone_doc_properties(&tag_index.properties),
        required_modules: collect_required_modules(lexical_uses),
        targets,
        module_export,
    }
}

/// The semantic targets of a file, found by declaration, member or signature.
#[derive(Clone, Debug)]
pub struct SalsaSemanticTargetQueryIndex {
    pub targets: Vec<SalsaSemanticTargetInfoSummary>,
}

pub open spec fn infos_view(s: Seq<SalsaSemanticTargetInfoSummary>) -> Seq<TargetInfoView> {
    s.map_values(|i: SalsaSemanticTargetInfoSummary| i@)
}

pub open spec fn opt_info_view(i: Option<SalsaSemanticTargetInfoSummary>) -> Option<TargetInfoView> {
    match i {
        Some(i) => Some(i@),
        None => None,
    }
}

/// What the first entry of `s` for the target `t` says, if any.
pub open spec fn spec_first_info_for(s: Seq<TargetInfoView>, t: SalsaSemanticTargetSummary) -> Option<TargetInfoView> {
    if exists|i: int| 0 <= i < s.len() && (#[trigger] s[i]).target == t {
        let i = choose|i: int|
            0 <= i < s.len() && (#[trigger] s[i]).target == t && forall|j: int| 0 <= j < i ==> (#[trigger] s[j]).target != t;
        Some(s[i])
    } else {
        None
    }
}

fn clone_resolves(v: &Vec<SalsaDocOwnerResolveSummary>) -> (r: Vec<SalsaDocOwnerResolveSummary>)
    ensures
        resolves_view(r@) == resolves_view(v@),
{
    let mut r: Vec<SalsaDocOwnerResolveSummary> = Vec::new();
    let mut i: usize = 0;
    while i < v.len()
        invariant
            i <= v@.len(),
            resolves_view(r@) == resolves_view(v@.take(i as int)),
        decreases v@.len() - i,
    {
        let ghost before = r@;
        r.push(clone_resolve(&v[i]));
        assert(v@.take(i + 1) =~= v@.take(i as int).push(v@[i as int]));
        assert(resolves_view(r@) =~= resolves_view(before).push(v@[i as int]@));
        assert(resolves_view(v@.take(i + 1)) =~= resolves_view(v@.take(i as int)).push(v@[i as int]@));
        i = i + 1;
    }
    assert(v@.take(i as int) =~= v@);
    r
}

fn clone_info(info: &SalsaSemanticTargetInfoSummary) -> (r: SalsaSemanticTargetInfoSummary)
    ensures
        r@ == info@,
{
    SalsaSemanticTargetInfoSummary {
        target: info.target,
        doc_owners: clone_resolves(&info.doc_owners),
        tag_properties: clone_doc_properties(&info.tag_properties),
        properties: clone_properties(&info.properties),
    }
}

fn clone_infos(v: &Vec<SalsaSemanticTargetInfoSummary>) -> (r: Vec<SalsaSemanticTargetInfoSummary>)
    ensures
        infos_view(r@) == infos_view(v@),
{
    let mut r: Vec<SalsaSemanticTargetInfoSummary> = Vec::new();
    let mut i: usize = 0;
    while i < v.len()
        invariant
            i <= v@.len(),
            infos_view(r@) == infos_view(v@.take(i as int)),
        decreases v@.len() - i,
    {
        let ghost before = r@;
        r.push(clone_info(&v[i]));
        assert(v@.take(i + 1) =~= v@.take(i as int).push(v@[i as int]));
        assert(infos_view(r@) =~= infos_view(before).push(v@[i as int]@));
        assert(infos_view(v@.take(i + 1)) =~= infos_view(v@.take(i as int)).push(v@[i as int]@));
        i = i + 1;
    }
    assert(v@.take(i as int) =~= v@);
    r
}

/// Builds the query index of a semantic summary's targets.
pub fn build_semantic_target_query_index(summary: &SalsaSingleFileSemanticSummary) -> (r:
    SalsaSemanticTargetQueryIndex)
    ensures
        infos_view(r.targets@) == infos_view(summary.targets@),
{
    SalsaSemanticTargetQueryIndex { targets: clone_infos(&summary.targets) }
}

fn find_target_info(targets: &Vec<SalsaSemanticTargetInfoSummary>, t: SalsaSemanticTargetSummary) -> (r: Option<
    SalsaSemanticTargetInfoSummary,
>)
    ensures
        opt_info_view(r) == spec_first_info_for(infos_view(targets@), t),
{
    let ghost v = infos_view(targets@);
    let mut i: usize = 0;
    while i < targets.len()
        invariant
            v == infos_view(targets@),
            i <= v.len(),
            forall|j: int| 0 <= j < i ==> (#[trigger] v[j]).target != t,
        decreases v.len() - i,
    {
        assert(v[i as int] == targets@[i as int]@);
        if targets[i].target == t {
            let ghost k = choose|k: int|
                0 <= k < v.len() && (#[trigger] v[k]).target == t && forall|j: int|
                    0 <= j < k ==> (#[trigger] v[j]).target != t;
            assert(k == i) by {
                if k > i {
                    assert(v[i as int].target == t);
                }
            }
            return Some(clone_info(&targets[i]));
        }
        i = i + 1;
    }
    None
}

/// What the index says of the declaration `decl_id`.
pub fn find_semantic_decl_in_index(index: &SalsaSemanticTargetQueryIndex, decl_id: u32) -> (r: Option<
    SalsaSemanticTargetInfoSummary,
>)
    ensures
        opt_info_view(r) == spec_first_info_for(infos_view(index.targets@), SalsaSemanticTargetSummary::Decl(decl_id)),
{
    find_target_info(&index.targets, SalsaSemanticTargetSummary::Decl(decl_id))
}

/// What the index says of the member with target handle `member_target`.
pub fn find_semantic_member_in_index(index: &SalsaSemanticTargetQueryIndex, member_target: u32) -> (r: Option<
    SalsaSemanticTargetInfoSummary,
>)
    ensures
        opt_info_view(r) == spec_first_info_for(
            infos_view(index.targets@),
            SalsaSemanticTargetSummary::Member(member_target),
        ),
{
    find_target_info(&index.targets, SalsaSemanticTargetSummary::Member(member_target))
}

/// What the index says of the signature at `signature_offset`.
pub fn find_semantic_signature_in_index(index: &SalsaSemanticTargetQueryIndex, signature_offset: u32) -> (r: Option<
    SalsaSemanticTargetInfoSummary,
>)
    ensures
        opt_info_view(r) == spec_first_info_for(
            infos_view(index.targets@),
            SalsaSemanticTargetSummary::Signature(signature_offset),
        ),
{
    find_target_info(&index.targets, SalsaSemanticTargetSummary::Signature(signature_offset))
}

/// What a semantic summary says of the declaration `decl_id`.
pub fn find_semantic_decl(summary: &SalsaSingleFileSemanticSummary, decl_id: u32) -> (r: Option<
    SalsaSemanticTargetInfoSummary,
>)
    ensures
        opt_info_view(r) == spec_first_info_for(infos_view(summary.targets@), SalsaSemanticTargetSummary::Decl(decl_id)),
{
    let index = build_semantic_target_query_index(summary);
    find_semantic_decl_in_index(&index, decl_id)
}

/// What a semantic summary says of the member with target handle `member_target`.
pub fn find_semantic_member(summary: &SalsaSingleFileSemanticSummary, member_target: u32) -> (r: Option<
    SalsaSemanticTargetInfoSummary,
>)
    ensures
        opt_info_view(r) == spec_first_info_for(
            infos_view(summary.targets@),
            SalsaSemanticTargetSummary::Member(member_target),
        ),
{
    let index = build_semantic_target_query_index(summary);
    find_semantic_member_in_index(&index, member_target)
}

/// What a semantic summary says of the signature at `signature_offset`.
pub fn find_semantic_signature(summary: &SalsaSingleFileSemanticSummary, signature_offset: u32) -> (r: Option<
    SalsaSemanticTargetInfoSummary,
>)
    ensures
        opt_info_view(r) == spec_first_info_for(
            infos_view(summary.targets@),
            SalsaSemanticTargetSummary::Signature(signature_offset),
        ),
{
    let index = build_semantic_target_query_index(summary);
    find_semantic_signature_in_index(&index, signature_offset)
}

/// What a semantic summary says of its module export.
pub fn find_module_export_semantic(summary: &SalsaSingleFileSemanticSummary) -> (r: Option<
    SalsaModuleExportSemanticSummary,
>)
    ensures
        opt_module_export_semantic_view(r) == opt_module_export_semantic_view(summary.module_export),
{
    match &summary.module_export {
        Some(m) => Some(
            SalsaModuleExportSemanticSummary {
                export_target: clone_export_target(&m.export_target),
                export: clone_export(&m.export),
                semantic_target: m.semantic_target,
                doc_owners: clone_resolves(&m.doc_owners),
                tag_properties: clone_doc_properties(&m.tag_properties),
            },
        ),
        None => None,
    }
}

/// How well a module export is resolved: fully where it stands for some target,
/// partly where it stands for none, unknown without an export.
pub open spec fn spec_module_export_state(module_export: Option<SalsaModuleExportSemanticSummary>) -> SalsaSemanticResolveStateSummary {
    match module_export {
        Some(m) => if m.semantic_target is Some {
            SalsaSemanticResolveStateSummary::Resolved
        } else {
            SalsaSemanticResolveStateSummary::Partial
        },
        None => SalsaSemanticResolveStateSummary::Unknown,
    }
}

/// The semantic state of a module export.
pub fn semantic_resolve_state_from_module_export(module_export: Option<&SalsaModuleExportSemanticSummary>) -> (r:
    SalsaSemanticResolveStateSummary)
    ensures
        r == spec_module_export_state(
            match module_export {
                Some(m) => Some(*m),
                None => None,
            },
        ),
{
    match module_export {
        Some(m) => if m.semantic_target.is_some() {
            SalsaSemanticResolveStateSummary::Resolved
        } else {
            SalsaSemanticResolveStateSummary::Partial
        },
        None => SalsaSemanticResolveStateSummary::Unknown,
    }
}

/// The shell of a module export: its state and no candidate types.
pub fn build_semantic_value_shell_from_module_export(module_export: Option<&SalsaModuleExportSemanticSummary>) -> (r:
    SalsaSemanticValueShellSummary)
    ensures
        r.state == spec_module_export_state(
            match module_export {
                Some(m) => Some(*m),
                None => None,
            },
        ),
        r.candidate_type_offsets@.len() == 0,
{
    SalsaSemanticValueShellSummary {
        state: semantic_resolve_state_from_module_export(module_export),
        candidate_type_offsets: Vec::new(),
    }
}

} // verus!
