//! The type information of a file's declarations and globals, built from the
//! declarations, the documentation tags and the signatures: the doc types
//! declared for each, the classes and enums it is documented as, and what it is
//! initialized with.
use vstd::prelude::*;

use crate::decls::{SalsaDeclKindSummary, SalsaDeclSummary, SalsaDeclTreeSummary};
use crate::doc_owner::{
    ResolveView, SalsaDocOwnerResolveIndex, collect_doc_owner_resolves_for_decl, resolves_to_decl, resolves_view,
};
use crate::doc_tag::{SalsaDocSummary, SalsaDocTypeDefKindSummary};
use crate::lookup::{Keyed, find_first_index, first_with_key, lemma_first_index_with_key};
use crate::name_order::{insert_name_sorted_unique, names_strictly_sorted, names_view};
use crate::offsets::{insert_all_sorted_unique, insert_sorted_unique, strictly_sorted};
use crate::signature_model::{SalsaSignatureIndexSummary, SalsaSignatureSummary};
use crate::type_info::{SalsaDeclTypeInfoSummary, SalsaDeclTypeQueryIndex};

verus! {

impl Keyed for SalsaSignatureSummary {
    open spec fn key(&self) -> u32 { self.syntax_offset }
    fn get_key(&self) -> (k: u32) { self.syntax_offset }
}

/// Some signature of the file starts at `offset`.
pub open spec fn is_signature_offset(signatures: SalsaSignatureIndexSummary, offset: u32) -> bool {
    exists|i: int| 0 <= i < signatures.signatures@.len() && #[trigger] signatures.signatures@[i].syntax_offset == offset
}

/// The initializer offset, when a signature starts there (the value is a function).
pub open spec fn spec_signature_initializer(signatures: SalsaSignatureIndexSummary, initializer_offset: Option<u32>) -> Option<u32> {
    match initializer_offset {
        Some(o) => if is_signature_offset(signatures, o) {
            Some(o)
        } else {
            None
        },
        None => None,
    }
}

/// The initializer offset, when a signature starts there (the value is a function).
pub fn find_signature_initializer_offset(signatures: &SalsaSignatureIndexSummary, initializer_offset: Option<u32>) -> (r:
    Option<u32>)
    ensures
        r == spec_signature_initializer(*signatures, initializer_offset),
{
    let o = match initializer_offset {
        Some(o) => o,
        None => return None,
    };
    let mut i: usize = 0;
    while i < signatures.signatures.len()
        invariant
            i <= signatures.signatures@.len(),
            initializer_offset == Some(o),
            forall|j: int| 0 <= j < i ==> signatures.signatures@[j].syntax_offset != o,
        decreases signatures.signatures@.len() - i,
    {
        if signatures.signatures[i].syntax_offset == o {
            assert(signatures.signatures@[i as int].syntax_offset == o);
            return Some(o);
        }
        i = i + 1;
    }
    None
}

/// A `---@type` tag attached at `owner_offset` names the doc type `x`.
pub open spec fn tagged_type(doc: SalsaDocSummary, owner_offset: u32, x: u32) -> bool {
    exists|t: int|
        0 <= t < doc.type_tags@.len() && #[trigger] doc.type_tags@[t].owner.syntax_offset == Some(owner_offset)
            && doc.type_tags@[t].type_offsets@.contains(x)
}

/// The offsets of the statements whose comments document the declaration `decl_id`.
pub open spec fn decl_doc_owners(resolves: SalsaDocOwnerResolveIndex, decl_id: u32) -> Seq<u32> {
    resolves_view(resolves.bindings@).filter(|r: ResolveView| resolves_to_decl(r, decl_id)).map_values(
        |r: ResolveView| r.owner_offset,
    )
}

/// A `---@param` tag of the signature at `signature_offset` (the first listed
/// there) gives its parameter `idx` the doc type `x`.
pub open spec fn param_doc_type(
    doc: SalsaDocSummary,
    signatures: SalsaSignatureIndexSummary,
    signature_offset: u32,
    idx: usize,
    x: u32,
) -> bool {
    match first_with_key(signatures.signatures@, signature_offset) {
        Some(sig) => idx < sig.params@.len() && exists|k: int|
            0 <= k < doc.params@.len() && #[trigger] doc.params@[k].owner.syntax_offset == Some(sig.owner_offset)
                && doc.params@[k].name@ == sig.params@[idx as int].name@ && doc.params@[k].type_offset == Some(x),
        None => false,
    }
}

/// The doc types declared for a declaration: for a parameter, by the `---@param`
/// tags of its signature; for a local or global, by the `---@type` tags on the
/// statements that document it; none for an implicit `self`.
pub open spec fn decl_explicit_type(
    decl: SalsaDeclSummary,
    doc: SalsaDocSummary,
    signatures: SalsaSignatureIndexSummary,
    resolves: SalsaDocOwnerResolveIndex,
    x: u32,
) -> bool {
    match decl.kind {
        SalsaDeclKindSummary::Param { signature_offset, idx } => param_doc_type(doc, signatures, signature_offset, idx, x),
        SalsaDeclKindSummary::ImplicitSelf => false,
        _ => exists|o: u32| #[trigger] decl_doc_owners(resolves, decl.id).contains(o) && tagged_type(doc, o, x),
    }
}

/// A class or enum named `n` is defined on the statement at `owner_offset`.
pub open spec fn owner_type_name(doc: SalsaDocSummary, owner_offset: u32, n: Seq<char>) -> bool {
    exists|t: int|
        0 <= t < doc.type_defs@.len() && #[trigger] doc.type_defs@[t].owner.syntax_offset == Some(owner_offset)
            && doc.type_defs@[t].kind != SalsaDocTypeDefKindSummary::Alias && doc.type_defs@[t].name@ == n
}

/// The classes and enums a local or global is documented as.
pub open spec fn decl_type_name(decl: SalsaDeclSummary, doc: SalsaDocSummary, resolves: SalsaDocOwnerResolveIndex, n: Seq<char>) -> bool {
    &&& (decl.kind is Local || decl.kind is Global)
    &&& exists|o: u32| #[trigger] decl_doc_owners(resolves, decl.id).contains(o) && owner_type_name(doc, o, n)
}

/// Adds the doc types that the `---@type` tags attached at `owner_offset` name.
fn add_tag_types_for_owner(collected: &mut Vec<u32>, doc: &SalsaDocSummary, owner_offset: u32)
    requires
        strictly_sorted(old(collected)@),
    ensures
        strictly_sorted(final(collected)@),
        forall|y: u32| #[trigger] final(collected)@.contains(y) <==> (old(collected)@.contains(y) || tagged_type(*doc, owner_offset, y)),
{
    let ghost start = collected@;
    let tags = &doc.type_tags;
    let mut t: usize = 0;
    while t < tags.len()
        invariant
            t <= tags@.len(),
            tags@ == doc.type_tags@,
            strictly_sorted(collected@),
            forall|y: u32| #[trigger] collected@.contains(y) <==> (start.contains(y) || exists|k: int|
                0 <= k < t && #[trigger] tags@[k].owner.syntax_offset == Some(owner_offset) && tags@[k].type_offsets@.contains(y)),
        decreases tags@.len() - t,
    {
        let tag = &tags[t];
        let ghost at_tag = collected@;
        if tag.owner.syntax_offset == Some(owner_offset) {
            insert_all_sorted_unique(collected, &tag.type_offsets);
        }
        assert forall|y: u32| #[trigger] collected@.contains(y) <==> (start.contains(y) || exists|k: int|
            0 <= k < t + 1 && #[trigger] tags@[k].owner.syntax_offset == Some(owner_offset) && tags@[k].type_offsets@.contains(y)) by {
            if exists|k: int| 0 <= k < t + 1 && #[trigger] tags@[k].owner.syntax_offset == Some(owner_offset) && tags@[k].type_offsets@.contains(y) {
                let k = choose|k: int| 0 <= k < t + 1 && #[trigger] tags@[k].owner.syntax_offset == Some(owner_offset) && tags@[k].type_offsets@.contains(y);
                if k < t {
                    assert(at_tag.contains(y));
                }
            }
            if tag.owner.syntax_offset == Some(owner_offset) && tag.type_offsets@.contains(y) {
                assert(tags@[t as int].owner.syntax_offset == Some(owner_offset));
            }
        }
        t = t + 1;
    }
}

/// The doc types declared for a declaration, each once, in increasing order.
pub fn collect_decl_explicit_type_offsets(
    decl: &SalsaDeclSummary,
    doc: &SalsaDocSummary,
    signatures: &SalsaSignatureIndexSummary,
    owner_resolve_index: &SalsaDocOwnerResolveIndex,
) -> (r: Vec<u32>)
    ensures
        strictly_sorted(r@),
        forall|x: u32| #[trigger] r@.contains(x) <==> decl_explicit_type(*decl, *doc, *signatures, *owner_resolve_index, x),
{
    let mut collected: Vec<u32> = Vec::new();
    match decl.kind {
        SalsaDeclKindSummary::Param { signature_offset, idx } => {
            proof { lemma_first_index_with_key(signatures.signatures@, signature_offset); }
            let sig = match find_first_index(&signatures.signatures, signature_offset) {
                Some(i) => &signatures.signatures[i],
                None => return collected,
            };
            if idx >= sig.params.len() {
                return collected;
            }
            let param = &sig.params[idx];
            let ps = &doc.params;
            let mut k: usize = 0;
            while k < ps.len()
                invariant
                    k <= ps@.len(),
                    ps@ == doc.params@,
                    strictly_sorted(collected@),
                    forall|y: u32| #[trigger] collected@.contains(y) <==> exists|j: int|
                        0 <= j < k && #[trigger] ps@[j].owner.syntax_offset == Some(sig.owner_offset)
                            && ps@[j].name@ == param.name@ && ps@[j].type_offset == Some(y),
                decreases ps@.len() - k,
            {
                let p = &ps[k];
                let ghost before = collected@;
                if p.owner.syntax_offset == Some(sig.owner_offset) && p.name == param.name {
                    if let Some(t) = p.type_offset {
                        insert_sorted_unique(&mut collected, t);
                    }
                }
                assert forall|y: u32| #[trigger] collected@.contains(y) <==> exists|j: int|
                    0 <= j < k + 1 && #[trigger] ps@[j].owner.syntax_offset == Some(sig.owner_offset)
                        && ps@[j].name@ == param.name@ && ps@[j].type_offset == Some(y) by {
                    if exists|j: int| 0 <= j < k + 1 && #[trigger] ps@[j].owner.syntax_offset == Some(sig.owner_offset)
                        && ps@[j].name@ == param.name@ && ps@[j].type_offset == Some(y) {
                        let j = choose|j: int| 0 <= j < k + 1 && #[trigger] ps@[j].owner.syntax_offset == Some(sig.owner_offset)
                            && ps@[j].name@ == param.name@ && ps@[j].type_offset == Some(y);
                        if j < k {
                            assert(before.contains(y));
                        }
                    }
                    if collected@.contains(y) && !before.contains(y) {
                        assert(ps@[k as int].owner.syntax_offset == Some(sig.owner_offset));
                    }
                }
                k = k + 1;
            }
            collected
        },
        SalsaDeclKindSummary::ImplicitSelf => collected,
        _ => {
            let rs = collect_doc_owner_resolves_for_decl(owner_resolve_index, decl.id);
            let ghost owners = decl_doc_owners(*owner_resolve_index, decl.id);
            assert(owners =~= resolves_view(rs@).map_values(|r: ResolveView| r.owner_offset));
            let mut j: usize = 0;
            while j < rs.len()
                invariant
                    j <= rs@.len(),
                    owners == resolves_view(rs@).map_values(|r: ResolveView| r.owner_offset),
                    strictly_sorted(collected@),
                    forall|y: u32| #[trigger] collected@.contains(y) <==> exists|o: u32|
                        #[trigger] owners.take(j as int).contains(o) && tagged_type(*doc, o, y),
                decreases rs@.len() - j,
            {
                let ghost before = collected@;
                add_tag_types_for_owner(&mut collected, doc, rs[j].owner_offset);
                proof {
                    assert(owners[j as int] == rs@[j as int].owner_offset);
                    assert(owners.take(j + 1) =~= owners.take(j as int).push(owners[j as int]));
                    assert forall|y: u32| #[trigger] collected@.contains(y) <==> exists|o: u32|
                        #[trigger] owners.take(j + 1).contains(o) && tagged_type(*doc, o, y) by {
                        if exists|o: u32| #[trigger] owners.take(j + 1).contains(o) && tagged_type(*doc, o, y) {
                            let o = choose|o: u32| #[trigger] owners.take(j + 1).contains(o) && tagged_type(*doc, o, y);
                            vstd::seq_lib::lemma_seq_contains_after_push(owners.take(j as int), owners[j as int], o);
                            if o != owners[j as int] {
                                assert(before.contains(y));
                            }
                        }
                        if before.contains(y) {
                            let o = choose|o: u32| #[trigger] owners.take(j as int).contains(o) && tagged_type(*doc, o, y);
                            vstd::seq_lib::lemma_seq_contains_after_push(owners.take(j as int), owners[j as int], o);
                        }
                        if tagged_type(*doc, owners[j as int], y) {
                            vstd::seq_lib::lemma_seq_contains_after_push(owners.take(j as int), owners[j as int], owners[j as int]);
                        }
                    }
                }
                j = j + 1;
            }
            assert(owners.take(j as int) =~= owners);
            collected
        },
    }
}

/// Adds the names of the classes and enums defined on the statement at `owner_offset`.
fn add_type_names_for_owner(collected: &mut Vec<String>, doc: &SalsaDocSummary, owner_offset: u32)
    requires
        names_strictly_sorted(names_view(old(collected)@)),
    ensures
        names_strictly_sorted(names_view(final(collected)@)),
        forall|n: Seq<char>| #[trigger] names_view(final(collected)@).contains(n) <==> (names_view(old(collected)@).contains(n)
            || owner_type_name(*doc, owner_offset, n)),
{
    let ghost start = names_view(collected@);
    let defs = &doc.type_defs;
    let mut t: usize = 0;
    while t < defs.len()
        invariant
            t <= defs@.len(),
            defs@ == doc.type_defs@,
            names_strictly_sorted(names_view(collected@)),
            forall|n: Seq<char>| #[trigger] names_view(collected@).contains(n) <==> (start.contains(n) || exists|k: int|
                0 <= k < t && #[trigger] defs@[k].owner.syntax_offset == Some(owner_offset)
                    && defs@[k].kind != SalsaDocTypeDefKindSummary::Alias && defs@[k].name@ == n),
        decreases defs@.len() - t,
    {
        let def = &defs[t];
        let ghost before = names_view(collected@);
        let wanted = match def.kind {
            SalsaDocTypeDefKindSummary::Alias => false,
            _ => true,
        };
        if def.owner.syntax_offset == Some(owner_offset) && wanted {
            insert_name_sorted_unique(collected, def.name.clone());
        }
        assert forall|n: Seq<char>| #[trigger] names_view(collected@).contains(n) <==> (start.contains(n) || exists|k: int|
            0 <= k < t + 1 && #[trigger] defs@[k].owner.syntax_offset == Some(owner_offset)
                && defs@[k].kind != SalsaDocTypeDefKindSummary::Alias && defs@[k].name@ == n) by {
            if exists|k: int| 0 <= k < t + 1 && #[trigger] defs@[k].owner.syntax_offset == Some(owner_offset)
                && defs@[k].kind != SalsaDocTypeDefKindSummary::Alias && defs@[k].name@ == n {
                let k = choose|k: int| 0 <= k < t + 1 && #[trigger] defs@[k].owner.syntax_offset == Some(owner_offset)
                    && defs@[k].kind != SalsaDocTypeDefKindSummary::Alias && defs@[k].name@ == n;
                if k < t {
                    assert(before.contains(n));
                }
            }
            if names_view(collected@).contains(n) && !before.contains(n) {
                assert(defs@[t as int].owner.syntax_offset == Some(owner_offset));
            }
        }
        t = t + 1;
    }
}

/// The names of the classes and enums defined on the statement at
/// `owner_offset`, each once, in increasing order.
pub fn collect_named_type_names_for_owner(owner_offset: u32, doc: &SalsaDocSummary) -> (r: Vec<String>)
    ensures
        names_strictly_sorted(names_view(r@)),
        forall|n: Seq<char>| #[trigger] names_view(r@).contains(n) <==> owner_type_name(*doc, owner_offset, n),
{
    let mut collected: Vec<String> = Vec::new();
    assert(names_view(collected@) =~= Seq::<Seq<char>>::empty());
    add_type_names_for_owner(&mut collected, doc, owner_offset);
    collected
}

/// The names of the classes and enums a local or global is documented as, each
/// once, in increasing order.
pub fn collect_decl_named_type_names(
    decl: &SalsaDeclSummary,
    doc: &SalsaDocSummary,
    owner_resolve_index: &SalsaDocOwnerResolveIndex,
) -> (r: Vec<String>)
    ensures
        names_strictly_sorted(names_view(r@)),
        forall|n: Seq<char>| #[trigger] names_view(r@).contains(n) <==> decl_type_name(*decl, *doc, *owner_resolve_index, n),
{
    let mut collected: Vec<String> = Vec::new();
    assert(names_view(collected@) =~= Seq::<Seq<char>>::empty());
    let documented = match decl.kind {
        SalsaDeclKindSummary::Local { .. } => true,
        SalsaDeclKindSummary::Global => true,
        _ => false,
    };
    if !documented {
        return collected;
    }
    let rs = collect_doc_owner_resolves_for_decl(owner_resolve_index, decl.id);
    let ghost owners = decl_doc_owners(*owner_resolve_index, decl.id);
    assert(owners =~= resolves_view(rs@).map_values(|r: ResolveView| r.owner_offset));
    let mut j: usize = 0;
    while j < rs.len()
        invariant
            j <= rs@.len(),
            owners == resolves_view(rs@).map_values(|r: ResolveView| r.owner_offset),
            names_strictly_sorted(names_view(collected@)),
            forall|n: Seq<char>| #[trigger] names_view(collected@).contains(n) <==> exists|o: u32|
                #[trigger] owners.take(j as int).contains(o) && owner_type_name(*doc, o, n),
        decreases rs@.len() - j,
    {
        let ghost before = names_view(collected@);
        add_type_names_for_owner(&mut collected, doc, rs[j].owner_offset);
        proof {
            assert(owners[j as int] == rs@[j as int].owner_offset);
            assert(owners.take(j + 1) =~= owners.take(j as int).push(owners[j as int]));
            assert forall|n: Seq<char>| #[trigger] names_view(collected@).contains(n) <==> exists|o: u32|
                #[trigger] owners.take(j + 1).contains(o) && owner_type_name(*doc, o, n) by {
                if exists|o: u32| #[trigger] owners.take(j + 1).contains(o) && owner_type_name(*doc, o, n) {
                    let o = choose|o: u32| #[trigger] owners.take(j + 1).contains(o) && owner_type_name(*doc, o, n);
                    vstd::seq_lib::lemma_seq_contains_after_push(owners.take(j as int), owners[j as int], o);
                    if o != owners[j as int] {
                        assert(before.contains(n));
                    }
                }
                if before.contains(n) {
                    let o = choose|o: u32| #[trigger] owners.take(j as int).contains(o) && owner_type_name(*doc, o, n);
                    vstd::seq_lib::lemma_seq_contains_after_push(owners.take(j as int), owners[j as int], o);
                }
                if owner_type_name(*doc, owners[j as int], n) {
                    vstd::seq_lib::lemma_seq_contains_after_push(owners.take(j as int), owners[j as int], owners[j as int]);
                }
            }
        }
        j = j + 1;
    }
    assert(owners.take(j as int) =~= owners);
    collected
}

/// The parameter's signature, for a parameter.
pub open spec fn decl_signature_offset(decl: SalsaDeclSummary) -> Option<u32> {
    match decl.kind {
        SalsaDeclKindSummary::Param { signature_offset, .. } => Some(signature_offset),
        _ => None,
    }
}

/// `d` is the type information of `decl`: its id and name, the doc types
/// declared for it and the classes and enums it is documented as (each once, in
/// increasing order), what it is initialized with, its signature when it is a
/// parameter, and its initializer when that is a function.
pub open spec fn is_decl_type_info_of(
    d: SalsaDeclTypeInfoSummary,
    decl: SalsaDeclSummary,
    doc: SalsaDocSummary,
    signatures: SalsaSignatureIndexSummary,
    resolves: SalsaDocOwnerResolveIndex,
) -> bool {
    &&& d.decl_id == decl.id
    &&& d.name@ == decl.name@
    &&& strictly_sorted(d.explicit_type_offsets@)
    &&& forall|x: u32| #[trigger] d.explicit_type_offsets@.contains(x) <==> decl_explicit_type(decl, doc, signatures, resolves, x)
    &&& names_strictly_sorted(names_view(d.named_type_names@))
    &&& forall|n: Seq<char>| #[trigger] names_view(d.named_type_names@).contains(n) <==> decl_type_name(decl, doc, resolves, n)
    &&& d.initializer_offset == decl.value_expr_offset
    &&& d.value_expr_syntax_id == decl.value_expr_syntax_id
    &&& d.value_result_index == decl.value_result_index
    &&& d.source_call_syntax_id == decl.source_call_syntax_id
    &&& d.signature_offset == decl_signature_offset(decl)
    &&& d.value_signature_offset == spec_signature_initializer(signatures, decl.value_expr_offset)
}

/// The type information of one declaration.
pub fn build_decl_type_info(
    decl: &SalsaDeclSummary,
    doc: &SalsaDocSummary,
    signatures: &SalsaSignatureIndexSummary,
    owner_resolve_index: &SalsaDocOwnerResolveIndex,
) -> (r: SalsaDeclTypeInfoSummary)
    ensures
        is_decl_type_info_of(r, *decl, *doc, *signatures, *owner_resolve_index),
{
    let signature_offset = match decl.kind {
        SalsaDeclKindSummary::Param { signature_offset, .. } => Some(signature_offset),
        _ => None,
    };
    SalsaDeclTypeInfoSummary {
        decl_id: decl.id,
        name: decl.name.clone(),
        explicit_type_offsets: collect_decl_explicit_type_offsets(decl, doc, signatures, owner_resolve_index),
        named_type_names: collect_decl_named_type_names(decl, doc, owner_resolve_index),
        initializer_offset: decl.value_expr_offset,
        value_expr_syntax_id: decl.value_expr_syntax_id,
        value_result_index: decl.value_result_index,
        source_call_syntax_id: decl.source_call_syntax_id,
        signature_offset,
        value_signature_offset: find_signature_initializer_offset(signatures, decl.value_expr_offset),
    }
}

/// The type information of every declaration of the tree, in the tree's order.
pub fn build_decl_type_query_index(
    decl_tree: &SalsaDeclTreeSummary,
    doc: &SalsaDocSummary,
    signatures: &SalsaSignatureIndexSummary,
    owner_resolve_index: &SalsaDocOwnerResolveIndex,
) -> (r: SalsaDeclTypeQueryIndex)
    ensures
        r.decls@.len() == decl_tree.decls@.len(),
        forall|i: int| 0 <= i < r.decls@.len() ==> #[trigger] is_decl_type_info_of(
            r.decls@[i], decl_tree.decls@[i], *doc, *signatures, *owner_resolve_index),
{
    let mut decls: Vec<SalsaDeclTypeInfoSummary> = Vec::new();
    let mut i: usize = 0;
    while i < decl_tree.decls.len()
        invariant
            i <= decl_tree.decls@.len(),
            decls@.len() == i,
            forall|k: int| 0 <= k < i ==> #[trigger] is_decl_type_info_of(
                decls@[k], decl_tree.decls@[k], *doc, *signatures, *owner_resolve_index),
        decreases decl_tree.decls@.len() - i,
    {
        let d = build_decl_type_info(&decl_tree.decls[i], doc, signatures, owner_resolve_index);
        decls.push(d);
        i = i + 1;
    }
    SalsaDeclTypeQueryIndex { decls }
}

} // verus!
