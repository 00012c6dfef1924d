//! The resolved doc types of a file: each doc type node together with the
//! lowered form listed under its key (the last one, as a map built from the
//! lowered index in order keeps it); nodes without a lowered form are left out.
use std::collections::HashMap;

use vstd::prelude::*;

use crate::doc_type::{
    SalsaDocGenericParamSummary, SalsaDocObjectFieldKeySummary, SalsaDocObjectFieldSummary, SalsaDocReturnTypeSummary,
    SalsaDocTypeIndexSummary, SalsaDocTypeKindSummary, SalsaDocTypeLoweredGenericParam, SalsaDocTypeLoweredIndex,
    SalsaDocTypeLoweredKind, SalsaDocTypeLoweredNode, SalsaDocTypeLoweredObjectField, SalsaDocTypeLoweredObjectFieldKey,
    SalsaDocTypeLoweredParam, SalsaDocTypeLoweredReturn, SalsaDocTypeNodeSummary, SalsaDocTypeResolvedIndex,
    SalsaDocTypeResolvedSummary, SalsaDocTypedParamSummary,
};
use crate::lookup::{last_index_with_key, lemma_last_index_with_key};
use crate::signature_model::{SalsaDocTypeRef, clone_u32_vec};
use crate::uses::clone_opt_string;

verus! {

fn clone_field_key(k: &SalsaDocObjectFieldKeySummary) -> (r: SalsaDocObjectFieldKeySummary)
    ensures
        r == *k,
{
    match k {
        SalsaDocObjectFieldKeySummary::Name(n) => SalsaDocObjectFieldKeySummary::Name(n.clone()),
        SalsaDocObjectFieldKeySummary::String(n) => SalsaDocObjectFieldKeySummary::String(n.clone()),
        SalsaDocObjectFieldKeySummary::Integer(v) => SalsaDocObjectFieldKeySummary::Integer(*v),
        SalsaDocObjectFieldKeySummary::Type(t) => SalsaDocObjectFieldKeySummary::Type(*t),
    }
}

fn clone_lowered_field_key(k: &SalsaDocTypeLoweredObjectFieldKey) -> (r: SalsaDocTypeLoweredObjectFieldKey)
    ensures
        r == *k,
{
    match k {
        SalsaDocTypeLoweredObjectFieldKey::Name(n) => SalsaDocTypeLoweredObjectFieldKey::Name(n.clone()),
        SalsaDocTypeLoweredObjectFieldKey::String(n) => SalsaDocTypeLoweredObjectFieldKey::String(n.clone()),
        SalsaDocTypeLoweredObjectFieldKey::Integer(v) => SalsaDocTypeLoweredObjectFieldKey::Integer(*v),
        SalsaDocTypeLoweredObjectFieldKey::Type(t) => SalsaDocTypeLoweredObjectFieldKey::Type(*t),
    }
}

fn clone_generic_params(v: &Vec<SalsaDocGenericParamSummary>) -> (r: Vec<SalsaDocGenericParamSummary>)
    ensures
        r@ == v@,
{
    let mut r: Vec<SalsaDocGenericParamSummary> = Vec::new();
    let mut i: usize = 0;
    while i < v.len()
        invariant
            i <= v@.len(),
            r@ == v@.take(i as int),
        decreases v@.len() - i,
    {
        let x = &v[i];
        r.push(SalsaDocGenericParamSummary { name: x.name.clone(), type_offset: x.type_offset });
        assert(v@.take(i + 1) =~= v@.take(i as int).push(v@[i as int]));
        i = i + 1;
    }
    assert(v@.take(i as int) =~= v@);
    r
}

fn clone_typed_params(v: &Vec<SalsaDocTypedParamSummary>) -> (r: Vec<SalsaDocTypedParamSummary>)
    ensures
        r@ == v@,
{
    let mut r: Vec<SalsaDocTypedParamSummary> = Vec::new();
    let mut i: usize = 0;
    while i < v.len()
        invariant
            i <= v@.len(),
            r@ == v@.take(i as int),
        decreases v@.len() - i,
    {
        let x = &v[i];
        r.push(SalsaDocTypedParamSummary { name: clone_opt_string(&x.name), type_offset: x.type_offset, is_dots: x.is_dots, is_nullable: x.is_nullable });
        assert(v@.take(i + 1) =~= v@.take(i as int).push(v@[i as int]));
        i = i + 1;
    }
    assert(v@.take(i as int) =~= v@);
    r
}

fn clone_return_types(v: &Vec<SalsaDocReturnTypeSummary>) -> (r: Vec<SalsaDocReturnTypeSummary>)
    ensures
        r@ == v@,
{
    let mut r: Vec<SalsaDocReturnTypeSummary> = Vec::new();
    let mut i: usize = 0;
    while i < v.len()
        invariant
            i <= v@.len(),
            r@ == v@.take(i as int),
        decreases v@.len() - i,
    {
        let x = &v[i];
        r.push(SalsaDocReturnTypeSummary { name: clone_opt_string(&x.name), type_offset: x.type_offset });
        assert(v@.take(i + 1) =~= v@.take(i as int).push(v@[i as int]));
        i = i + 1;
    }
    assert(v@.take(i as int) =~= v@);
    r
}

fn clone_object_fields(v: &Vec<SalsaDocObjectFieldSummary>) -> (r: Vec<SalsaDocObjectFieldSummary>)
    ensures
        r@ == v@,
{
    let mut r: Vec<SalsaDocObjectFieldSummary> = Vec::new();
    let mut i: usize = 0;
    while i < v.len()
        invariant
            i <= v@.len(),
            r@ == v@.take(i as int),
        decreases v@.len() - i,
    {
        let x = &v[i];
        r.push(SalsaDocObjectFieldSummary { syntax_offset: x.syntax_offset, key: clone_field_key(&x.key), value_type_offset: x.value_type_offset, is_nullable: x.is_nullable });
        assert(v@.take(i + 1) =~= v@.take(i as int).push(v@[i as int]));
        i = i + 1;
    }
    assert(v@.take(i as int) =~= v@);
    r
}

fn clone_lowered_generic_params(v: &Vec<SalsaDocTypeLoweredGenericParam>) -> (r: Vec<SalsaDocTypeLoweredGenericParam>)
    ensures
        r@ == v@,
{
    let mut r: Vec<SalsaDocTypeLoweredGenericParam> = Vec::new();
    let mut i: usize = 0;
    while i < v.len()
        invariant
            i <= v@.len(),
            r@ == v@.take(i as int),
        decreases v@.len() - i,
    {
        let x = &v[i];
        r.push(SalsaDocTypeLoweredGenericParam { name: x.name.clone(), bound: x.bound });
        assert(v@.take(i + 1) =~= v@.take(i as int).push(v@[i as int]));
        i = i + 1;
    }
    assert(v@.take(i as int) =~= v@);
    r
}

fn clone_lowered_params(v: &Vec<SalsaDocTypeLoweredParam>) -> (r: Vec<SalsaDocTypeLoweredParam>)
    ensures
        r@ == v@,
{
    let mut r: Vec<SalsaDocTypeLoweredParam> = Vec::new();
    let mut i: usize = 0;
    while i < v.len()
        invariant
            i <= v@.len(),
            r@ == v@.take(i as int),
        decreases v@.len() - i,
    {
        let x = &v[i];
        r.push(SalsaDocTypeLoweredParam { name: clone_opt_string(&x.name), doc_type: x.doc_type, is_dots: x.is_dots, is_nullable: x.is_nullable });
        assert(v@.take(i + 1) =~= v@.take(i as int).push(v@[i as int]));
        i = i + 1;
    }
    assert(v@.take(i as int) =~= v@);
    r
}

fn clone_lowered_returns(v: &Vec<SalsaDocTypeLoweredReturn>) -> (r: Vec<SalsaDocTypeLoweredReturn>)
    ensures
        r@ == v@,
{
    let mut r: Vec<SalsaDocTypeLoweredReturn> = Vec::new();
    let mut i: usize = 0;
    while i < v.len()
        invariant
            i <= v@.len(),
            r@ == v@.take(i as int),
        decreases v@.len() - i,
    {
        let x = &v[i];
        r.push(SalsaDocTypeLoweredReturn { name: clone_opt_string(&x.name), doc_type: x.doc_type });
        assert(v@.take(i + 1) =~= v@.take(i as int).push(v@[i as int]));
        i = i + 1;
    }
    assert(v@.take(i as int) =~= v@);
    r
}

fn clone_lowered_fields(v: &Vec<SalsaDocTypeLoweredObjectField>) -> (r: Vec<SalsaDocTypeLoweredObjectField>)
    ensures
        r@ == v@,
{
    let mut r: Vec<SalsaDocTypeLoweredObjectField> = Vec::new();
    let mut i: usize = 0;
    while i < v.len()
        invariant
            i <= v@.len(),
            r@ == v@.take(i as int),
        decreases v@.len() - i,
    {
        let x = &v[i];
        r.push(SalsaDocTypeLoweredObjectField { syntax_offset: x.syntax_offset, key: clone_lowered_field_key(&x.key), value_type: x.value_type, is_nullable: x.is_nullable });
        assert(v@.take(i + 1) =~= v@.take(i as int).push(v@[i as int]));
        i = i + 1;
    }
    assert(v@.take(i as int) =~= v@);
    r
}

fn clone_refs(v: &Vec<SalsaDocTypeRef>) -> (r: Vec<SalsaDocTypeRef>)
    ensures
        r@ == v@,
{
    let mut r: Vec<SalsaDocTypeRef> = Vec::new();
    let mut i: usize = 0;
    while i < v.len()
        invariant
            i <= v@.len(),
            r@ == v@.take(i as int),
        decreases v@.len() - i,
    {
        let x = &v[i];
        r.push(*x);
        assert(v@.take(i + 1) =~= v@.take(i as int).push(v@[i as int]));
        i = i + 1;
    }
    assert(v@.take(i as int) =~= v@);
    r
}

/// `b` is a copy of doc type kind `a`: the same variant with the same fields,
/// lists holding the same items.
pub open spec fn kind_copy(a: SalsaDocTypeKindSummary, b: SalsaDocTypeKindSummary) -> bool {
    match a {
        SalsaDocTypeKindSummary::Function { is_async, is_sync, generic_params, params, returns: rets } => match b {
            SalsaDocTypeKindSummary::Function { is_async: x, is_sync: y, generic_params: g, params: p, returns: r } => x
                == is_async && y == is_sync && g@ == generic_params@ && p@ == params@ && r@ == rets@,
            _ => false,
        },
        SalsaDocTypeKindSummary::Object { fields } => match b {
            SalsaDocTypeKindSummary::Object { fields: f } => f@ == fields@,
            _ => false,
        },
        SalsaDocTypeKindSummary::Tuple { item_type_offsets } => match b {
            SalsaDocTypeKindSummary::Tuple { item_type_offsets: t } => t@ == item_type_offsets@,
            _ => false,
        },
        SalsaDocTypeKindSummary::Generic { base_type_offset, arg_type_offsets } => match b {
            SalsaDocTypeKindSummary::Generic { base_type_offset: x, arg_type_offsets: t } => x == base_type_offset && t@
                == arg_type_offsets@,
            _ => false,
        },
        SalsaDocTypeKindSummary::MultiLineUnion { item_type_offsets } => match b {
            SalsaDocTypeKindSummary::MultiLineUnion { item_type_offsets: t } => t@ == item_type_offsets@,
            _ => false,
        },
        SalsaDocTypeKindSummary::Attribute { params } => match b {
            SalsaDocTypeKindSummary::Attribute { params: p } => p@ == params@,
            _ => false,
        },
        SalsaDocTypeKindSummary::Mapped { key_type_offsets, value_type_offset, is_readonly, is_optional } => match b {
            SalsaDocTypeKindSummary::Mapped { key_type_offsets: t, value_type_offset: v, is_readonly: r, is_optional: o } => t@
                == key_type_offsets@ && v == value_type_offset && r == is_readonly && o == is_optional,
            _ => false,
        },
        _ => b == a,
    }
}

/// `b` is a copy of doc type node `a`.
pub open spec fn node_copy(a: SalsaDocTypeNodeSummary, b: SalsaDocTypeNodeSummary) -> bool {
    &&& b.key == a.key
    &&& b.syntax_offset == a.syntax_offset
    &&& b.syntax_id == a.syntax_id
    &&& kind_copy(a.kind, b.kind)
}

/// `b` is a copy of lowered kind `a`.
pub open spec fn lowered_kind_copy(a: SalsaDocTypeLoweredKind, b: SalsaDocTypeLoweredKind) -> bool {
    match a {
        SalsaDocTypeLoweredKind::Function { is_async, is_sync, generic_params, params, returns: rets } => match b {
            SalsaDocTypeLoweredKind::Function { is_async: x, is_sync: y, generic_params: g, params: p, returns: r } => x
                == is_async && y == is_sync && g@ == generic_params@ && p@ == params@ && r@ == rets@,
            _ => false,
        },
        SalsaDocTypeLoweredKind::Object { fields } => match b {
            SalsaDocTypeLoweredKind::Object { fields: f } => f@ == fields@,
            _ => false,
        },
        SalsaDocTypeLoweredKind::Union { item_types } => match b {
            SalsaDocTypeLoweredKind::Union { item_types: t } => t@ == item_types@,
            _ => false,
        },
        SalsaDocTypeLoweredKind::Intersection { item_types } => match b {
            SalsaDocTypeLoweredKind::Intersection { item_types: t } => t@ == item_types@,
            _ => false,
        },
        SalsaDocTypeLoweredKind::Tuple { item_types } => match b {
            SalsaDocTypeLoweredKind::Tuple { item_types: t } => t@ == item_types@,
            _ => false,
        },
        SalsaDocTypeLoweredKind::Generic { base_type, arg_types } => match b {
            SalsaDocTypeLoweredKind::Generic { base_type: x, arg_types: t } => x == base_type && t@ == arg_types@,
            _ => false,
        },
        SalsaDocTypeLoweredKind::MultiLineUnion { item_types } => match b {
            SalsaDocTypeLoweredKind::MultiLineUnion { item_types: t } => t@ == item_types@,
            _ => false,
        },
        SalsaDocTypeLoweredKind::Attribute { params } => match b {
            SalsaDocTypeLoweredKind::Attribute { params: p } => p@ == params@,
            _ => false,
        },
        SalsaDocTypeLoweredKind::Mapped { key_types, value_type, is_readonly, is_optional } => match b {
            SalsaDocTypeLoweredKind::Mapped { key_types: t, value_type: v, is_readonly: r, is_optional: o } => t@ == key_types@
                && v == value_type && r == is_readonly && o == is_optional,
            _ => false,
        },
        _ => b == a,
    }
}

/// `b` is a copy of lowered node `a`.
pub open spec fn lowered_copy(a: SalsaDocTypeLoweredNode, b: SalsaDocTypeLoweredNode) -> bool {
    &&& b.key == a.key
    &&& b.syntax_offset == a.syntax_offset
    &&& b.syntax_id == a.syntax_id
    &&& lowered_kind_copy(a.kind, b.kind)
}

fn copy_kind(k: &SalsaDocTypeKindSummary) -> (r: SalsaDocTypeKindSummary)
    ensures
        kind_copy(*k, r),
{
    match k {
        SalsaDocTypeKindSummary::Name { name } => SalsaDocTypeKindSummary::Name { name: clone_opt_string(name) },
        SalsaDocTypeKindSummary::Infer { generic_name } => SalsaDocTypeKindSummary::Infer {
            generic_name: clone_opt_string(generic_name),
        },
        SalsaDocTypeKindSummary::Array { item_type_offset } => SalsaDocTypeKindSummary::Array {
            item_type_offset: *item_type_offset,
        },
        SalsaDocTypeKindSummary::Function { is_async, is_sync, generic_params, params, returns: rets } => {
            SalsaDocTypeKindSummary::Function {
                is_async: *is_async,
                is_sync: *is_sync,
                generic_params: clone_generic_params(generic_params),
                params: clone_typed_params(params),
                returns: clone_return_types(rets),
            }
        },
        SalsaDocTypeKindSummary::Object { fields } => SalsaDocTypeKindSummary::Object { fields: clone_object_fields(fields) },
        SalsaDocTypeKindSummary::Binary { op, left_type_offset, right_type_offset } => SalsaDocTypeKindSummary::Binary {
            op: *op,
            left_type_offset: *left_type_offset,
            right_type_offset: *right_type_offset,
        },
        SalsaDocTypeKindSummary::Unary { op, inner_type_offset } => SalsaDocTypeKindSummary::Unary {
            op: *op,
            inner_type_offset: *inner_type_offset,
        },
        SalsaDocTypeKindSummary::Conditional { condition_type_offset, true_type_offset, false_type_offset, has_new } => {
            SalsaDocTypeKindSummary::Conditional {
                condition_type_offset: *condition_type_offset,
                true_type_offset: *true_type_offset,
                false_type_offset: *false_type_offset,
                has_new: *has_new,
            }
        },
        SalsaDocTypeKindSummary::Tuple { item_type_offsets } => SalsaDocTypeKindSummary::Tuple {
            item_type_offsets: clone_u32_vec(item_type_offsets),
        },
        SalsaDocTypeKindSummary::Literal { text } => SalsaDocTypeKindSummary::Literal { text: text.clone() },
        SalsaDocTypeKindSummary::Variadic { item_type_offset } => SalsaDocTypeKindSummary::Variadic {
            item_type_offset: *item_type_offset,
        },
        SalsaDocTypeKindSummary::Nullable { inner_type_offset } => SalsaDocTypeKindSummary::Nullable {
            inner_type_offset: *inner_type_offset,
        },
        SalsaDocTypeKindSummary::Generic { base_type_offset, arg_type_offsets } => SalsaDocTypeKindSummary::Generic {
            base_type_offset: *base_type_offset,
            arg_type_offsets: clone_u32_vec(arg_type_offsets),
        },
        SalsaDocTypeKindSummary::StringTemplate { prefix, interpolated, suffix } => SalsaDocTypeKindSummary::StringTemplate {
            prefix: clone_opt_string(prefix),
            interpolated: clone_opt_string(interpolated),
            suffix: clone_opt_string(suffix),
        },
        SalsaDocTypeKindSummary::MultiLineUnion { item_type_offsets } => SalsaDocTypeKindSummary::MultiLineUnion {
            item_type_offsets: clone_u32_vec(item_type_offsets),
        },
        SalsaDocTypeKindSummary::Attribute { params } => SalsaDocTypeKindSummary::Attribute { params: clone_typed_params(params) },
        SalsaDocTypeKindSummary::Mapped { key_type_offsets, value_type_offset, is_readonly, is_optional } => {
            SalsaDocTypeKindSummary::Mapped {
                key_type_offsets: clone_u32_vec(key_type_offsets),
                value_type_offset: *value_type_offset,
                is_readonly: *is_readonly,
                is_optional: *is_optional,
            }
        },
        SalsaDocTypeKindSummary::IndexAccess { base_type_offset, index_type_offset } => SalsaDocTypeKindSummary::IndexAccess {
            base_type_offset: *base_type_offset,
            index_type_offset: *index_type_offset,
        },
    }
}

fn copy_lowered_kind(k: &SalsaDocTypeLoweredKind) -> (r: SalsaDocTypeLoweredKind)
    ensures
        lowered_kind_copy(*k, r),
{
    match k {
        SalsaDocTypeLoweredKind::Unknown => SalsaDocTypeLoweredKind::Unknown,
        SalsaDocTypeLoweredKind::Name { name } => SalsaDocTypeLoweredKind::Name { name: name.clone() },
        SalsaDocTypeLoweredKind::Infer { generic_name } => SalsaDocTypeLoweredKind::Infer { generic_name: generic_name.clone() },
        SalsaDocTypeLoweredKind::Array { item_type } => SalsaDocTypeLoweredKind::Array { item_type: *item_type },
        SalsaDocTypeLoweredKind::Function { is_async, is_sync, generic_params, params, returns: rets } => {
            SalsaDocTypeLoweredKind::Function {
                is_async: *is_async,
                is_sync: *is_sync,
                generic_params: clone_lowered_generic_params(generic_params),
                params: clone_lowered_params(params),
                returns: clone_lowered_returns(rets),
            }
        },
        SalsaDocTypeLoweredKind::Object { fields } => SalsaDocTypeLoweredKind::Object { fields: clone_lowered_fields(fields) },
        SalsaDocTypeLoweredKind::Union { item_types } => SalsaDocTypeLoweredKind::Union { item_types: clone_refs(item_types) },
        SalsaDocTypeLoweredKind::Intersection { item_types } => SalsaDocTypeLoweredKind::Intersection {
            item_types: clone_refs(item_types),
        },
        SalsaDocTypeLoweredKind::Binary { op, left_type, right_type } => SalsaDocTypeLoweredKind::Binary {
            op: *op,
            left_type: *left_type,
            right_type: *right_type,
        },
        SalsaDocTypeLoweredKind::Unary { op, inner_type } => SalsaDocTypeLoweredKind::Unary { op: *op, inner_type: *inner_type },
        SalsaDocTypeLoweredKind::Conditional { condition_type, true_type, false_type, has_new } => {
            SalsaDocTypeLoweredKind::Conditional {
                condition_type: *condition_type,
                true_type: *true_type,
                false_type: *false_type,
                has_new: *has_new,
            }
        },
        SalsaDocTypeLoweredKind::Tuple { item_types } => SalsaDocTypeLoweredKind::Tuple { item_types: clone_refs(item_types) },
        SalsaDocTypeLoweredKind::Literal { text } => SalsaDocTypeLoweredKind::Literal { text: text.clone() },
        SalsaDocTypeLoweredKind::Variadic { item_type } => SalsaDocTypeLoweredKind::Variadic { item_type: *item_type },
        SalsaDocTypeLoweredKind::Nullable { inner_type } => SalsaDocTypeLoweredKind::Nullable { inner_type: *inner_type },
        SalsaDocTypeLoweredKind::Generic { base_type, arg_types } => SalsaDocTypeLoweredKind::Generic {
            base_type: *base_type,
            arg_types: clone_refs(arg_types),
        },
        SalsaDocTypeLoweredKind::StringTemplate { prefix, interpolated, suffix } => SalsaDocTypeLoweredKind::StringTemplate {
            prefix: clone_opt_string(prefix),
            interpolated: clone_opt_string(interpolated),
            suffix: clone_opt_string(suffix),
        },
        SalsaDocTypeLoweredKind::MultiLineUnion { item_types } => SalsaDocTypeLoweredKind::MultiLineUnion {
            item_types: clone_refs(item_types),
        },
        SalsaDocTypeLoweredKind::Attribute { params } => SalsaDocTypeLoweredKind::Attribute { params: clone_lowered_params(params) },
        SalsaDocTypeLoweredKind::Mapped { key_types, value_type, is_readonly, is_optional } => SalsaDocTypeLoweredKind::Mapped {
            key_types: clone_refs(key_types),
            value_type: *value_type,
            is_readonly: *is_readonly,
            is_optional: *is_optional,
        },
        SalsaDocTypeLoweredKind::IndexAccess { base_type, index_type } => SalsaDocTypeLoweredKind::IndexAccess {
            base_type: *base_type,
            index_type: *index_type,
        },
    }
}

/// The positions of the doc type nodes that have a lowered form under their
/// key, in order.
pub open spec fn resolved_positions(nodes: Seq<SalsaDocTypeNodeSummary>, lowered: Seq<SalsaDocTypeLoweredNode>) -> Seq<int>
    decreases nodes.len(),
{
    if nodes.len() == 0 {
        seq![]
    } else {
        let rest = resolved_positions(nodes.drop_last(), lowered);
        if last_index_with_key(lowered, nodes.last().key) >= 0 { rest.push(nodes.len() - 1) } else { rest }
    }
}

/// `r` is the resolved summary of node `d` with the lowered node `q`.
pub open spec fn resolved_of(r: SalsaDocTypeResolvedSummary, d: SalsaDocTypeNodeSummary, q: SalsaDocTypeLoweredNode) -> bool {
    &&& r.type_key == d.key
    &&& r.syntax_offset == d.syntax_offset
    &&& node_copy(d, r.doc_type)
    &&& lowered_copy(q, r.lowered)
}

/// `m` maps each key of `lowered` to the position of the last node under it.
pub open spec fn indexes_last_lowered(m: Map<u32, usize>, lowered: Seq<SalsaDocTypeLoweredNode>) -> bool {
    forall|k: u32|
        #![trigger m.contains_key(k)]
        #![trigger last_index_with_key(lowered, k)]
        (m.contains_key(k) <==> last_index_with_key(lowered, k) >= 0) && (m.contains_key(k) ==> m[k] as int
            == last_index_with_key(lowered, k))
}

fn build_lowered_node_index(lowered: &Vec<SalsaDocTypeLoweredNode>) -> (m: HashMap<u32, usize>)
    ensures
        indexes_last_lowered(m@, lowered@),
{
    broadcast use vstd::std_specs::hash::group_hash_axioms;
    let mut m: HashMap<u32, usize> = HashMap::new();
    let mut i: usize = 0;
    while i < lowered.len()
        invariant
            i <= lowered@.len(),
            indexes_last_lowered(m@, lowered@.take(i as int)),
        decreases lowered@.len() - i,
    {
        assert(lowered@.take(i + 1).drop_last() =~= lowered@.take(i as int));
        assert(lowered@.take(i + 1).last() == lowered@[i as int]);
        m.insert(lowered[i].key, i);
        i = i + 1;
    }
    assert(lowered@.take(i as int) =~= lowered@);
    m
}

/// Entry `t` resolves node `p` of `nodes`, before position `bound`, with the
/// last lowered node under its key.
pub open spec fn entry_resolves(
    t: SalsaDocTypeResolvedSummary,
    nodes: Seq<SalsaDocTypeNodeSummary>,
    lowered: Seq<SalsaDocTypeLoweredNode>,
    p: int,
    bound: int,
) -> bool {
    &&& 0 <= p < bound
    &&& resolved_of(t, nodes[p], lowered[last_index_with_key(lowered, nodes[p].key)])
}

/// Each doc type node that has a lowered form under its key (the last listed
/// there), with it, in the order of the nodes.
pub fn build_resolved_doc_type_index(
    doc_types: &SalsaDocTypeIndexSummary,
    lowered_types: &SalsaDocTypeLoweredIndex,
) -> (r: SalsaDocTypeResolvedIndex)
    ensures
        r.types@.len() == resolved_positions(doc_types.types@, lowered_types.types@).len(),
        forall|j: int|
            0 <= j < r.types@.len() ==> entry_resolves(
                #[trigger] r.types@[j],
                doc_types.types@,
                lowered_types.types@,
                resolved_positions(doc_types.types@, lowered_types.types@)[j],
                doc_types.types@.len() as int,
            ),
{
    broadcast use vstd::std_specs::hash::group_hash_axioms;
    let nodes = &doc_types.types;
    let lowered = &lowered_types.types;
    let index = build_lowered_node_index(lowered);
    let ghost ns = nodes@;
    let ghost ls = lowered@;
    let mut types: Vec<SalsaDocTypeResolvedSummary> = Vec::new();
    let mut i: usize = 0;
    while i < nodes.len()
        invariant
            i <= ns.len(),
            ns == nodes@,
            ls == lowered@,
            indexes_last_lowered(index@, ls),
            types@.len() == resolved_positions(ns.take(i as int), ls).len(),
            forall|j: int|
                0 <= j < types@.len() ==> entry_resolves(
                    #[trigger] types@[j],
                    ns,
                    ls,
                    resolved_positions(ns.take(i as int), ls)[j],
                    i as int,
                ),
        decreases ns.len() - i,
    {
        let ghost before = resolved_positions(ns.take(i as int), ls);
        assert(ns.take(i + 1).drop_last() =~= ns.take(i as int));
        assert(ns.take(i + 1).last() == ns[i as int]);
        let d = &nodes[i];
        proof { lemma_last_index_with_key(ls, d.key); }
        match index.get(&d.key) {
            Some(k) => {
                let k = *k;
                assert(index@.contains_key(d.key));
                let q = &lowered[k];
                let ghost old_types = types@;
                types.push(
                    SalsaDocTypeResolvedSummary {
                        type_key: d.key,
                        syntax_offset: d.syntax_offset,
                        doc_type: SalsaDocTypeNodeSummary {
                            key: d.key,
                            syntax_offset: d.syntax_offset,
                            syntax_id: d.syntax_id,
                            kind: copy_kind(&d.kind),
                        },
                        lowered: SalsaDocTypeLoweredNode {
                            key: q.key,
                            syntax_offset: q.syntax_offset,
                            syntax_id: q.syntax_id,
                            kind: copy_lowered_kind(&q.kind),
                        },
                    },
                );
                let ghost after = resolved_positions(ns.take(i + 1), ls);
                assert(after == before.push(i as int));
                assert forall|j: int| 0 <= j < types@.len() implies entry_resolves(
                    #[trigger] types@[j],
                    ns,
                    ls,
                    after[j],
                    i + 1,
                ) by {
                    if j < types@.len() - 1 {
                        assert(types@[j] == old_types[j]);
                        assert(entry_resolves(old_types[j], ns, ls, before[j], i as int));
                        assert(after[j] == before[j]);
                    } else {
                        assert(after[j] == i);
                        assert(last_index_with_key(ls, ns[i as int].key) == k);
                    }
                }
            },
            None => {
                assert(resolved_positions(ns.take(i + 1), ls) == before);
                assert forall|j: int| 0 <= j < types@.len() implies entry_resolves(
                    #[trigger] types@[j],
                    ns,
                    ls,
                    before[j],
                    i + 1,
                ) by {
                    assert(entry_resolves(types@[j], ns, ls, before[j], i as int));
                }
            },
        }
        i = i + 1;
    }
    assert(ns.take(i as int) =~= ns);
    SalsaDocTypeResolvedIndex { types }
}

} // verus!
