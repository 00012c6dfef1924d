//! Doc types: the type expressions that doc comments write, as the doc summary
//! lists them, and their lowered form, in which each operand is a reference to
//! another doc type and unions and intersections are flattened.
//!
//! A doc type node is named by its key, a handle that the doc summary gives each
//! node; an operand names the node it refers to by that key.
use vstd::prelude::*;

use std::collections::HashMap;

use crate::lookup::{Keyed, find_first_index, first_with_key, last_with_key,
    lemma_first_index_with_key, lemma_last_index_with_key, last_index_with_key};
use crate::signature_model::SalsaDocTypeRef;
use crate::type_info::SalsaSyntaxIdSummary;
use crate::uses::{UseSite, clone_opt_string, find_use_index_at, opt_at, use_at_index};

verus! {

#[derive(Clone, Copy, Debug, PartialEq, Eq, Structural)]
pub enum SalsaDocTypeBinaryOperatorSummary {
    Union,
    Intersection,
    Extends,
    In,
    Add,
    Sub,
}

#[derive(Clone, Copy, Debug, PartialEq, Eq, Structural)]
pub enum SalsaDocTypeUnaryOperatorSummary {
    Keyof,
    Neg,
}

/// A generic parameter of a function type: its name and bound.
#[derive(Clone, Debug)]
pub struct SalsaDocGenericParamSummary {
    pub name: String,
    pub type_offset: Option<u32>,
}

/// A parameter of a function type or an attribute.
#[derive(Clone, Debug)]
pub struct SalsaDocTypedParamSummary {
    pub name: Option<String>,
    pub type_offset: Option<u32>,
    pub is_dots: bool,
    pub is_nullable: bool,
}

/// A return of a function type.
#[derive(Clone, Debug)]
pub struct SalsaDocReturnTypeSummary {
    pub name: Option<String>,
    pub type_offset: Option<u32>,
}

/// The key of a field of an object type.
#[derive(Clone, Debug)]
pub enum SalsaDocObjectFieldKeySummary {
    Name(String),
    String(String),
    Integer(i64),
    Type(u32),
}

/// A field of an object type.
#[derive(Clone, Debug)]
pub struct SalsaDocObjectFieldSummary {
    pub syntax_offset: u32,
    pub key: SalsaDocObjectFieldKeySummary,
    pub value_type_offset: Option<u32>,
    pub is_nullable: bool,
}

/// What a doc type node says, with its operands named by key; an operand that
/// could not be read is `None`.
#[derive(Clone, Debug)]
pub enum SalsaDocTypeKindSummary {
    Name { name: Option<String> },
    Infer { generic_name: Option<String> },
    Array { item_type_offset: Option<u32> },
    Function {
        is_async: bool,
        is_sync: bool,
        generic_params: Vec<SalsaDocGenericParamSummary>,
        params: Vec<SalsaDocTypedParamSummary>,
        returns: Vec<SalsaDocReturnTypeSummary>,
    },
    Object { fields: Vec<SalsaDocObjectFieldSummary> },
    Binary { op: SalsaDocTypeBinaryOperatorSummary, left_type_offset: Option<u32>, right_type_offset: Option<u32> },
    Unary { op: SalsaDocTypeUnaryOperatorSummary, inner_type_offset: Option<u32> },
    Conditional {
        condition_type_offset: Option<u32>,
        true_type_offset: Option<u32>,
        false_type_offset: Option<u32>,
        has_new: Option<bool>,
    },
    Tuple { item_type_offsets: Vec<u32> },
    Literal { text: String },
    Variadic { item_type_offset: Option<u32> },
    Nullable { inner_type_offset: Option<u32> },
    Generic { base_type_offset: Option<u32>, arg_type_offsets: Vec<u32> },
    StringTemplate { prefix: Option<String>, interpolated: Option<String>, suffix: Option<String> },
    MultiLineUnion { item_type_offsets: Vec<u32> },
    Attribute { params: Vec<SalsaDocTypedParamSummary> },
    Mapped { key_type_offsets: Vec<u32>, value_type_offset: Option<u32>, is_readonly: bool, is_optional: bool },
    IndexAccess { base_type_offset: Option<u32>, index_type_offset: Option<u32> },
}

/// A doc type node: its key, where it stands, and what it says.
#[derive(Clone, Debug)]
pub struct SalsaDocTypeNodeSummary {
    pub key: u32,
    pub syntax_offset: u32,
    pub syntax_id: SalsaSyntaxIdSummary,
    pub kind: SalsaDocTypeKindSummary,
}

/// The doc type nodes of a file.
#[derive(Clone, Debug)]
pub struct SalsaDocTypeIndexSummary {
    pub types: Vec<SalsaDocTypeNodeSummary>,
}

#[derive(Clone, Debug)]
pub struct SalsaDocTypeLoweredGenericParam {
    pub name: String,
    pub bound: SalsaDocTypeRef,
}

#[derive(Clone, Debug)]
pub struct SalsaDocTypeLoweredParam {
    pub name: Option<String>,
    pub doc_type: SalsaDocTypeRef,
    pub is_dots: bool,
    pub is_nullable: bool,
}

#[derive(Clone, Debug)]
pub struct SalsaDocTypeLoweredReturn {
    pub name: Option<String>,
    pub doc_type: SalsaDocTypeRef,
}

#[derive(Clone, Debug)]
pub enum SalsaDocTypeLoweredObjectFieldKey {
    Name(String),
    String(String),
    Integer(i64),
    Type(SalsaDocTypeRef),
}

#[derive(Clone, Debug)]
pub struct SalsaDocTypeLoweredObjectField {
    pub syntax_offset: u32,
    pub key: SalsaDocTypeLoweredObjectFieldKey,
    pub value_type: SalsaDocTypeRef,
    pub is_nullable: bool,
}

/// A lowered doc type: each operand a reference, unions and intersections flat.
#[derive(Clone, Debug)]
pub enum SalsaDocTypeLoweredKind {
    Unknown,
    Name { name: String },
    Infer { generic_name: String },
    Array { item_type: SalsaDocTypeRef },
    Function {
        is_async: bool,
        is_sync: bool,
        generic_params: Vec<SalsaDocTypeLoweredGenericParam>,
        params: Vec<SalsaDocTypeLoweredParam>,
        returns: Vec<SalsaDocTypeLoweredReturn>,
    },
    Object { fields: Vec<SalsaDocTypeLoweredObjectField> },
    Union { item_types: Vec<SalsaDocTypeRef> },
    Intersection { item_types: Vec<SalsaDocTypeRef> },
    Binary { op: SalsaDocTypeBinaryOperatorSummary, left_type: SalsaDocTypeRef, right_type: SalsaDocTypeRef },
    Unary { op: SalsaDocTypeUnaryOperatorSummary, inner_type: SalsaDocTypeRef },
    Conditional {
        condition_type: SalsaDocTypeRef,
        true_type: SalsaDocTypeRef,
        false_type: SalsaDocTypeRef,
        has_new: Option<bool>,
    },
    Tuple { item_types: Vec<SalsaDocTypeRef> },
    Literal { text: String },
    Variadic { item_type: SalsaDocTypeRef },
    Nullable { inner_type: SalsaDocTypeRef },
    Generic { base_type: SalsaDocTypeRef, arg_types: Vec<SalsaDocTypeRef> },
    StringTemplate { prefix: Option<String>, interpolated: Option<String>, suffix: Option<String> },
    MultiLineUnion { item_types: Vec<SalsaDocTypeRef> },
    Attribute { params: Vec<SalsaDocTypeLoweredParam> },
    Mapped { key_types: Vec<SalsaDocTypeRef>, value_type: SalsaDocTypeRef, is_readonly: bool, is_optional: bool },
    IndexAccess { base_type: SalsaDocTypeRef, index_type: SalsaDocTypeRef },
}

/// A lowered doc type node, under the key of the node it lowers.
#[derive(Clone, Debug)]
pub struct SalsaDocTypeLoweredNode {
    pub key: u32,
    pub syntax_offset: u32,
    pub syntax_id: SalsaSyntaxIdSummary,
    pub kind: SalsaDocTypeLoweredKind,
}

/// The lowered doc types of a file.
#[derive(Clone, Debug)]
pub struct SalsaDocTypeLoweredIndex {
    pub types: Vec<SalsaDocTypeLoweredNode>,
}

/// A doc type node together with its lowered form.
#[derive(Clone, Debug)]
pub struct SalsaDocTypeResolvedSummary {
    pub type_key: u32,
    pub syntax_offset: u32,
    pub doc_type: SalsaDocTypeNodeSummary,
    pub lowered: SalsaDocTypeLoweredNode,
}

/// The doc type nodes of a file that have a lowered form, with it.
#[derive(Clone, Debug)]
pub struct SalsaDocTypeResolvedIndex {
    pub types: Vec<SalsaDocTypeResolvedSummary>,
}

impl Keyed for SalsaDocTypeNodeSummary {
    open spec fn key(&self) -> u32 { self.key }
    fn get_key(&self) -> (k: u32) { self.key }
}

impl Keyed for SalsaDocTypeLoweredNode {
    open spec fn key(&self) -> u32 { self.key }
    fn get_key(&self) -> (k: u32) { self.key }
}

impl Keyed for SalsaDocTypeResolvedSummary {
    open spec fn key(&self) -> u32 { self.type_key }
    fn get_key(&self) -> (k: u32) { self.type_key }
}

impl UseSite for SalsaDocTypeLoweredNode {
    open spec fn site_offset(&self) -> u32 { self.syntax_offset }
    open spec fn site_syntax_id(&self) -> SalsaSyntaxIdSummary { self.syntax_id }
    fn get_site_offset(&self) -> (r: u32) { self.syntax_offset }
    fn get_site_syntax_id(&self) -> (r: SalsaSyntaxIdSummary) { self.syntax_id }
}

/// A resolved summary stands at its own offset and covers its node's syntax.
impl UseSite for SalsaDocTypeResolvedSummary {
    open spec fn site_offset(&self) -> u32 { self.syntax_offset }
    open spec fn site_syntax_id(&self) -> SalsaSyntaxIdSummary { self.doc_type.syntax_id }
    fn get_site_offset(&self) -> (r: u32) { self.syntax_offset }
    fn get_site_syntax_id(&self) -> (r: SalsaSyntaxIdSummary) { self.doc_type.syntax_id }
}

/// The reference that an operand makes: to its node, or incomplete when it
/// could not be read.
pub open spec fn lower_ref(t: Option<u32>) -> SalsaDocTypeRef {
    match t {
        Some(k) => SalsaDocTypeRef::Node(k),
        None => SalsaDocTypeRef::Incomplete,
    }
}

/// References to each of these nodes, in order.
pub open spec fn node_refs(s: Seq<u32>) -> Seq<SalsaDocTypeRef> {
    s.map_values(|k: u32| SalsaDocTypeRef::Node(k))
}

/// A ranking of keys under which, for the last node listed under each key that
/// is a binary type with operator `op`, each of its operands ranks below the key.
pub open spec fn chain_rank_ok(
    nodes: Seq<SalsaDocTypeNodeSummary>,
    op: SalsaDocTypeBinaryOperatorSummary,
    rank: spec_fn(u32) -> nat,
) -> bool {
    forall|k: u32|
        #![trigger last_with_key(nodes, k)]
        match last_with_key(nodes, k) {
            Some(m) => match m.kind {
                SalsaDocTypeKindSummary::Binary { op: o, left_type_offset, right_type_offset } => o == op ==> {
                    &&& match left_type_offset {
                        Some(a) => rank(a) < rank(k),
                        None => true,
                    }
                    &&& match right_type_offset {
                        Some(b) => rank(b) < rank(k),
                        None => true,
                    }
                },
                _ => true,
            },
            None => true,
        }
}

/// The chains of binary types with operator `op` end: following operands from
/// node to node through such types never comes back to a node.
pub open spec fn chain_ranked(nodes: Seq<SalsaDocTypeNodeSummary>, op: SalsaDocTypeBinaryOperatorSummary) -> bool {
    exists|rank: spec_fn(u32) -> nat| chain_rank_ok(nodes, op, rank)
}

pub open spec fn chain_measure(
    nodes: Seq<SalsaDocTypeNodeSummary>,
    op: SalsaDocTypeBinaryOperatorSummary,
    t: Option<u32>,
) -> nat {
    match t {
        Some(k) => (choose|rank: spec_fn(u32) -> nat| chain_rank_ok(nodes, op, rank))(k) + 1,
        None => 0,
    }
}

/// The items that the operand `t` contributes to a flattened chain of binary
/// types with operator `op`: an incomplete reference for a missing operand; the
/// items of both operands of a node that continues the chain; the items of a
/// multi-line union inside a union chain; else a reference to the operand.
pub open spec fn chain_items(
    nodes: Seq<SalsaDocTypeNodeSummary>,
    t: Option<u32>,
    op: SalsaDocTypeBinaryOperatorSummary,
) -> Seq<SalsaDocTypeRef>
    decreases chain_measure(nodes, op, t),
    when chain_ranked(nodes, op)
{
    match t {
        None => seq![SalsaDocTypeRef::Incomplete],
        Some(k) => match last_with_key(nodes, k) {
            None => seq![SalsaDocTypeRef::Node(k)],
            Some(m) => match m.kind {
                SalsaDocTypeKindSummary::Binary { op: o, left_type_offset, right_type_offset } => if o == op {
                    proof {
                        let rank = choose|rank: spec_fn(u32) -> nat| chain_rank_ok(nodes, op, rank);
                        assert(chain_rank_ok(nodes, op, rank));
                        assert(last_with_key(nodes, k) == Some(m));
                    }
                    chain_items(nodes, left_type_offset, op) + chain_items(nodes, right_type_offset, op)
                } else {
                    seq![SalsaDocTypeRef::Node(k)]
                },
                SalsaDocTypeKindSummary::MultiLineUnion { item_type_offsets } => if op
                    == SalsaDocTypeBinaryOperatorSummary::Union {
                    node_refs(item_type_offsets@)
                } else {
                    seq![SalsaDocTypeRef::Node(k)]
                },
                _ => seq![SalsaDocTypeRef::Node(k)],
            },
        },
    }
}

fn push_node_refs(items: &Vec<u32>, out: &mut Vec<SalsaDocTypeRef>)
    ensures
        final(out)@ == old(out)@ + node_refs(items@),
{
    let ghost start = out@;
    let mut i: usize = 0;
    while i < items.len()
        invariant
            i <= items@.len(),
            out@ == start + node_refs(items@.take(i as int)),
        decreases items@.len() - i,
    {
        out.push(SalsaDocTypeRef::Node(items[i]));
        assert(node_refs(items@.take(i + 1)) =~= node_refs(items@.take(i as int)).push(SalsaDocTypeRef::Node(items@[i as int])));
        assert(start + node_refs(items@.take(i + 1)) =~= (start + node_refs(items@.take(i as int))).push(SalsaDocTypeRef::Node(items@[i as int])));
        i = i + 1;
    }
    assert(items@.take(items@.len() as int) =~= items@);
}

fn to_node_refs(items: &Vec<u32>) -> (r: Vec<SalsaDocTypeRef>)
    ensures
        r@ == node_refs(items@),
{
    let mut r: Vec<SalsaDocTypeRef> = Vec::new();
    push_node_refs(items, &mut r);
    assert(Seq::<SalsaDocTypeRef>::empty() + node_refs(items@) =~= node_refs(items@));
    r
}

pub fn lower_type_ref(t: Option<u32>) -> (r: SalsaDocTypeRef)
    ensures
        r == lower_ref(t),
{
    match t {
        Some(k) => SalsaDocTypeRef::Node(k),
        None => SalsaDocTypeRef::Incomplete,
    }
}

/// `m` maps each key of `nodes` to the position of the last node listed under
/// it, and nothing else.
pub open spec fn indexes_last_nodes(m: Map<u32, usize>, nodes: Seq<SalsaDocTypeNodeSummary>) -> bool {
    forall|k: u32|
        #![trigger m.contains_key(k)]
        #![trigger last_index_with_key(nodes, k)]
        (m.contains_key(k) <==> last_index_with_key(nodes, k) >= 0) && (m.contains_key(k) ==> m[k] as int
            == last_index_with_key(nodes, k))
}

/// The doc type nodes of a file by key: each key to its last node, as a map
/// built from the nodes in order keeps it.
pub fn build_doc_type_node_index(nodes: &Vec<SalsaDocTypeNodeSummary>) -> (m: HashMap<u32, usize>)
    ensures
        indexes_last_nodes(m@, nodes@),
{
    broadcast use vstd::std_specs::hash::group_hash_axioms;
    let mut m: HashMap<u32, usize> = HashMap::new();
    let mut i: usize = 0;
    while i < nodes.len()
        invariant
            i <= nodes@.len(),
            indexes_last_nodes(m@, nodes@.take(i as int)),
        decreases nodes@.len() - i,
    {
        let ghost pre = nodes@.take(i as int);
        assert(nodes@.take(i + 1).drop_last() =~= pre);
        assert(nodes@.take(i + 1).last() == nodes@[i as int]);
        m.insert(nodes[i].key, i);
        i = i + 1;
    }
    assert(nodes@.take(i as int) =~= nodes@);
    m
}

pub fn append_binary_chain_item(
    type_offset: Option<u32>,
    target_op: SalsaDocTypeBinaryOperatorSummary,
    nodes: &Vec<SalsaDocTypeNodeSummary>,
    node_index: &HashMap<u32, usize>,
    out: &mut Vec<SalsaDocTypeRef>,
)
    requires
        chain_ranked(nodes@, target_op),
        indexes_last_nodes(node_index@, nodes@),
    ensures
        final(out)@ == old(out)@ + chain_items(nodes@, type_offset, target_op),
    decreases chain_measure(nodes@, target_op, type_offset),
{
    let k = match type_offset {
        None => {
            out.push(SalsaDocTypeRef::Incomplete);
            return;
        },
        Some(k) => k,
    };
    proof { lemma_last_index_with_key(nodes@, k); }
    broadcast use vstd::std_specs::hash::group_hash_axioms;
    match node_index.get(&k) {
        None => {
            out.push(SalsaDocTypeRef::Node(k));
        },
        Some(i) => {
            let i = *i;
            assert(node_index@.contains_key(k));
            assert(last_with_key(nodes@, k) == Some(nodes@[i as int]));
            match &nodes[i].kind {
                SalsaDocTypeKindSummary::Binary { op, left_type_offset, right_type_offset } => {
                    if *op == target_op {
                        proof {
                            let rank = choose|rank: spec_fn(u32) -> nat| chain_rank_ok(nodes@, target_op, rank);
                            assert(chain_rank_ok(nodes@, target_op, rank));
                        }
                        let ghost start = out@;
                        append_binary_chain_item(*left_type_offset, target_op, nodes, node_index, out);
                        append_binary_chain_item(*right_type_offset, target_op, nodes, node_index, out);
                        assert(out@ =~= start + (chain_items(nodes@, *left_type_offset, target_op) + chain_items(
                            nodes@,
                            *right_type_offset,
                            target_op,
                        )));
                    } else {
                        out.push(SalsaDocTypeRef::Node(k));
                    }
                },
                SalsaDocTypeKindSummary::MultiLineUnion { item_type_offsets } => {
                    if target_op == SalsaDocTypeBinaryOperatorSummary::Union {
                        push_node_refs(item_type_offsets, out);
                    } else {
                        out.push(SalsaDocTypeRef::Node(k));
                    }
                },
                _ => {
                    out.push(SalsaDocTypeRef::Node(k));
                },
            }
        },
    }
}

/// The flattened items of a chain of binary types with operator `op` whose
/// top node has the operands `left` and `right`.
pub fn collect_binary_chain(
    left: Option<u32>,
    right: Option<u32>,
    target_op: SalsaDocTypeBinaryOperatorSummary,
    nodes: &Vec<SalsaDocTypeNodeSummary>,
    node_index: &HashMap<u32, usize>,
) -> (r: Vec<SalsaDocTypeRef>)
    requires
        chain_ranked(nodes@, target_op),
        indexes_last_nodes(node_index@, nodes@),
    ensures
        r@ == chain_items(nodes@, left, target_op) + chain_items(nodes@, right, target_op),
{
    let mut item_types: Vec<SalsaDocTypeRef> = Vec::new();
    append_binary_chain_item(left, target_op, nodes, node_index, &mut item_types);
    append_binary_chain_item(right, target_op, nodes, node_index, &mut item_types);
    assert(item_types@ =~= chain_items(nodes@, left, target_op) + chain_items(nodes@, right, target_op));
    item_types
}

pub open spec fn generic_params_lowered(
    s: Seq<SalsaDocGenericParamSummary>,
    t: Seq<SalsaDocTypeLoweredGenericParam>,
) -> bool {
    &&& s.len() == t.len()
    &&& forall|i: int| 0 <= i < s.len() ==> #[trigger] t[i].name == s[i].name && t[i].bound == lower_ref(s[i].type_offset)
}

pub open spec fn param_lowered(p: SalsaDocTypedParamSummary, q: SalsaDocTypeLoweredParam) -> bool {
    &&& q.name == p.name
    &&& q.doc_type == lower_ref(p.type_offset)
    &&& q.is_dots == p.is_dots
    &&& q.is_nullable == p.is_nullable
}

pub open spec fn params_lowered(s: Seq<SalsaDocTypedParamSummary>, t: Seq<SalsaDocTypeLoweredParam>) -> bool {
    &&& s.len() == t.len()
    &&& forall|i: int| 0 <= i < s.len() ==> #[trigger] param_lowered(s[i], t[i])
}

pub open spec fn returns_lowered(s: Seq<SalsaDocReturnTypeSummary>, t: Seq<SalsaDocTypeLoweredReturn>) -> bool {
    &&& s.len() == t.len()
    &&& forall|i: int| 0 <= i < s.len() ==> #[trigger] t[i].name == s[i].name && t[i].doc_type == lower_ref(s[i].type_offset)
}

pub open spec fn field_key_lowered(k: SalsaDocObjectFieldKeySummary, q: SalsaDocTypeLoweredObjectFieldKey) -> bool {
    match k {
        SalsaDocObjectFieldKeySummary::Name(n) => q == SalsaDocTypeLoweredObjectFieldKey::Name(n),
        SalsaDocObjectFieldKeySummary::String(v) => q == SalsaDocTypeLoweredObjectFieldKey::String(v),
        SalsaDocObjectFieldKeySummary::Integer(v) => q == SalsaDocTypeLoweredObjectFieldKey::Integer(v),
        SalsaDocObjectFieldKeySummary::Type(t) => q == SalsaDocTypeLoweredObjectFieldKey::Type(SalsaDocTypeRef::Node(t)),
    }
}

pub open spec fn field_lowered(f: SalsaDocObjectFieldSummary, q: SalsaDocTypeLoweredObjectField) -> bool {
    &&& q.syntax_offset == f.syntax_offset
    &&& field_key_lowered(f.key, q.key)
    &&& q.value_type == lower_ref(f.value_type_offset)
    &&& q.is_nullable == f.is_nullable
}

pub open spec fn fields_lowered(s: Seq<SalsaDocObjectFieldSummary>, t: Seq<SalsaDocTypeLoweredObjectField>) -> bool {
    &&& s.len() == t.len()
    &&& forall|i: int| 0 <= i < s.len() ==> #[trigger] field_lowered(s[i], t[i])
}

/// `out` is the lowered form of `kind`: each operand becomes a reference; a
/// name or inferred name that could not be read becomes unknown; a union or an
/// intersection becomes the flat list of its chain's items, and a multi-line
/// union a union of its items; every other kind keeps its fields.
pub open spec fn kind_lowered(
    nodes: Seq<SalsaDocTypeNodeSummary>,
    kind: SalsaDocTypeKindSummary,
    out: SalsaDocTypeLoweredKind,
) -> bool {
    match kind {
        SalsaDocTypeKindSummary::Name { name } => match name {
            Some(n) => out == SalsaDocTypeLoweredKind::Name { name: n },
            None => out == SalsaDocTypeLoweredKind::Unknown,
        },
        SalsaDocTypeKindSummary::Infer { generic_name } => match generic_name {
            Some(n) => out == SalsaDocTypeLoweredKind::Infer { generic_name: n },
            None => out == SalsaDocTypeLoweredKind::Unknown,
        },
        SalsaDocTypeKindSummary::Array { item_type_offset } => out == SalsaDocTypeLoweredKind::Array {
            item_type: lower_ref(item_type_offset),
        },
        SalsaDocTypeKindSummary::Function { is_async, is_sync, generic_params, params, returns: rets } => match out {
            SalsaDocTypeLoweredKind::Function {
                is_async: a,
                is_sync: b,
                generic_params: g,
                params: p,
                returns: r,
            } => {
                &&& a == is_async
                &&& b == is_sync
                &&& generic_params_lowered(generic_params@, g@)
                &&& params_lowered(params@, p@)
                &&& returns_lowered(rets@, r@)
            },
            _ => false,
        },
        SalsaDocTypeKindSummary::Object { fields } => match out {
            SalsaDocTypeLoweredKind::Object { fields: f } => fields_lowered(fields@, f@),
            _ => false,
        },
        SalsaDocTypeKindSummary::Binary { op, left_type_offset, right_type_offset } => if op
            == SalsaDocTypeBinaryOperatorSummary::Union {
            match out {
                SalsaDocTypeLoweredKind::Union { item_types } => item_types@ == chain_items(nodes, left_type_offset, op)
                    + chain_items(nodes, right_type_offset, op),
                _ => false,
            }
        } else if op == SalsaDocTypeBinaryOperatorSummary::Intersection {
            match out {
                SalsaDocTypeLoweredKind::Intersection { item_types } => item_types@ == chain_items(
                    nodes,
                    left_type_offset,
                    op,
                ) + chain_items(nodes, right_type_offset, op),
                _ => false,
            }
        } else {
            out == SalsaDocTypeLoweredKind::Binary {
                op,
                left_type: lower_ref(left_type_offset),
                right_type: lower_ref(right_type_offset),
            }
        },
        SalsaDocTypeKindSummary::Unary { op, inner_type_offset } => out == SalsaDocTypeLoweredKind::Unary {
            op,
            inner_type: lower_ref(inner_type_offset),
        },
        SalsaDocTypeKindSummary::Conditional {
            condition_type_offset,
            true_type_offset,
            false_type_offset,
            has_new,
        } => out == SalsaDocTypeLoweredKind::Conditional {
            condition_type: lower_ref(condition_type_offset),
            true_type: lower_ref(true_type_offset),
            false_type: lower_ref(false_type_offset),
            has_new,
        },
        SalsaDocTypeKindSummary::Tuple { item_type_offsets } => match out {
            SalsaDocTypeLoweredKind::Tuple { item_types } => item_types@ == node_refs(item_type_offsets@),
            _ => false,
        },
        SalsaDocTypeKindSummary::Literal { text } => out == SalsaDocTypeLoweredKind::Literal { text },
        SalsaDocTypeKindSummary::Variadic { item_type_offset } => out == SalsaDocTypeLoweredKind::Variadic {
            item_type: lower_ref(item_type_offset),
        },
        SalsaDocTypeKindSummary::Nullable { inner_type_offset } => out == SalsaDocTypeLoweredKind::Nullable {
            inner_type: lower_ref(inner_type_offset),
        },
        SalsaDocTypeKindSummary::Generic { base_type_offset, arg_type_offsets } => match out {
            SalsaDocTypeLoweredKind::Generic { base_type, arg_types } => base_type == lower_ref(base_type_offset)
                && arg_types@ == node_refs(arg_type_offsets@),
            _ => false,
        },
        SalsaDocTypeKindSummary::StringTemplate { prefix, interpolated, suffix } => out
            == SalsaDocTypeLoweredKind::StringTemplate { prefix, interpolated, suffix },
        SalsaDocTypeKindSummary::MultiLineUnion { item_type_offsets } => match out {
            SalsaDocTypeLoweredKind::Union { item_types } => item_types@ == node_refs(item_type_offsets@),
            _ => false,
        },
        SalsaDocTypeKindSummary::Attribute { params } => match out {
            SalsaDocTypeLoweredKind::Attribute { params: p } => params_lowered(params@, p@),
            _ => false,
        },
        SalsaDocTypeKindSummary::Mapped { key_type_offsets, value_type_offset, is_readonly, is_optional } => match out {
            SalsaDocTypeLoweredKind::Mapped { key_types, value_type, is_readonly: r, is_optional: o } => {
                &&& key_types@ == node_refs(key_type_offsets@)
                &&& value_type == lower_ref(value_type_offset)
                &&& r == is_readonly
                &&& o == is_optional
            },
            _ => false,
        },
        SalsaDocTypeKindSummary::IndexAccess { base_type_offset, index_type_offset } => out
            == SalsaDocTypeLoweredKind::IndexAccess {
            base_type: lower_ref(base_type_offset),
            index_type: lower_ref(index_type_offset),
        },
    }
}

/// The lowered form of a node: the node's key, offset and syntax, and its kind lowered.
pub open spec fn node_lowered(
    nodes: Seq<SalsaDocTypeNodeSummary>,
    d: SalsaDocTypeNodeSummary,
    q: SalsaDocTypeLoweredNode,
) -> bool {
    &&& q.key == d.key
    &&& q.syntax_offset == d.syntax_offset
    &&& q.syntax_id == d.syntax_id
    &&& kind_lowered(nodes, d.kind, q.kind)
}

pub fn lower_generic_param(p: &SalsaDocGenericParamSummary) -> (q: SalsaDocTypeLoweredGenericParam)
    ensures
        q.name == p.name,
        q.bound == lower_ref(p.type_offset),
{
    SalsaDocTypeLoweredGenericParam { name: p.name.clone(), bound: lower_type_ref(p.type_offset) }
}

pub fn lower_param(p: &SalsaDocTypedParamSummary) -> (q: SalsaDocTypeLoweredParam)
    ensures
        param_lowered(*p, q),
{
    SalsaDocTypeLoweredParam {
        name: clone_opt_string(&p.name),
        doc_type: lower_type_ref(p.type_offset),
        is_dots: p.is_dots,
        is_nullable: p.is_nullable,
    }
}

pub fn lower_return(p: &SalsaDocReturnTypeSummary) -> (q: SalsaDocTypeLoweredReturn)
    ensures
        q.name == p.name,
        q.doc_type == lower_ref(p.type_offset),
{
    SalsaDocTypeLoweredReturn { name: clone_opt_string(&p.name), doc_type: lower_type_ref(p.type_offset) }
}

pub fn lower_object_field_key(k: &SalsaDocObjectFieldKeySummary) -> (q: SalsaDocTypeLoweredObjectFieldKey)
    ensures
        field_key_lowered(*k, q),
{
    match k {
        SalsaDocObjectFieldKeySummary::Name(n) => SalsaDocTypeLoweredObjectFieldKey::Name(n.clone()),
        SalsaDocObjectFieldKeySummary::String(v) => SalsaDocTypeLoweredObjectFieldKey::String(v.clone()),
        SalsaDocObjectFieldKeySummary::Integer(v) => SalsaDocTypeLoweredObjectFieldKey::Integer(*v),
        SalsaDocObjectFieldKeySummary::Type(t) => SalsaDocTypeLoweredObjectFieldKey::Type(SalsaDocTypeRef::Node(*t)),
    }
}

pub fn lower_object_field(f: &SalsaDocObjectFieldSummary) -> (q: SalsaDocTypeLoweredObjectField)
    ensures
        field_lowered(*f, q),
{
    SalsaDocTypeLoweredObjectField {
        syntax_offset: f.syntax_offset,
        key: lower_object_field_key(&f.key),
        value_type: lower_type_ref(f.value_type_offset),
        is_nullable: f.is_nullable,
    }
}

fn lower_generic_params(s: &Vec<SalsaDocGenericParamSummary>) -> (r: Vec<SalsaDocTypeLoweredGenericParam>)
    ensures
        generic_params_lowered(s@, r@),
{
    let mut r: Vec<SalsaDocTypeLoweredGenericParam> = Vec::new();
    let mut i: usize = 0;
    while i < s.len()
        invariant
            i <= s@.len(),
            generic_params_lowered(s@.take(i as int), r@),
        decreases s@.len() - i,
    {
        r.push(lower_generic_param(&s[i]));
        i = i + 1;
    }
    assert(s@.take(s@.len() as int) =~= s@);
    r
}

fn lower_params(s: &Vec<SalsaDocTypedParamSummary>) -> (r: Vec<SalsaDocTypeLoweredParam>)
    ensures
        params_lowered(s@, r@),
{
    let mut r: Vec<SalsaDocTypeLoweredParam> = Vec::new();
    let mut i: usize = 0;
    while i < s.len()
        invariant
            i <= s@.len(),
            params_lowered(s@.take(i as int), r@),
        decreases s@.len() - i,
    {
        r.push(lower_param(&s[i]));
        i = i + 1;
    }
    assert(s@.take(s@.len() as int) =~= s@);
    r
}

fn lower_returns(s: &Vec<SalsaDocReturnTypeSummary>) -> (r: Vec<SalsaDocTypeLoweredReturn>)
    ensures
        returns_lowered(s@, r@),
{
    let mut r: Vec<SalsaDocTypeLoweredReturn> = Vec::new();
    let mut i: usize = 0;
    while i < s.len()
        invariant
            i <= s@.len(),
            returns_lowered(s@.take(i as int), r@),
        decreases s@.len() - i,
    {
        r.push(lower_return(&s[i]));
        i = i + 1;
    }
    assert(s@.take(s@.len() as int) =~= s@);
    r
}

fn lower_object_fields(s: &Vec<SalsaDocObjectFieldSummary>) -> (r: Vec<SalsaDocTypeLoweredObjectField>)
    ensures
        fields_lowered(s@, r@),
{
    let mut r: Vec<SalsaDocTypeLoweredObjectField> = Vec::new();
    let mut i: usize = 0;
    while i < s.len()
        invariant
            i <= s@.len(),
            fields_lowered(s@.take(i as int), r@),
        decreases s@.len() - i,
    {
        r.push(lower_object_field(&s[i]));
        i = i + 1;
    }
    assert(s@.take(s@.len() as int) =~= s@);
    r
}

/// The chain that lowering `kind` follows ends: for a union, the chains of
/// unions; for an intersection, the chains of intersections; other kinds follow
/// no chain.
pub open spec fn kind_chain_ends(nodes: Seq<SalsaDocTypeNodeSummary>, kind: SalsaDocTypeKindSummary) -> bool {
    match kind {
        SalsaDocTypeKindSummary::Binary { op, .. } => match op {
            SalsaDocTypeBinaryOperatorSummary::Union => chain_ranked(nodes, SalsaDocTypeBinaryOperatorSummary::Union),
            SalsaDocTypeBinaryOperatorSummary::Intersection => chain_ranked(
                nodes,
                SalsaDocTypeBinaryOperatorSummary::Intersection,
            ),
            _ => true,
        },
        _ => true,
    }
}

/// The lowered form of a doc type kind, with `nodes` the file's doc type nodes
/// (the last node under a key is the one that a chain follows).
pub fn lower_doc_type_kind(
    kind: &SalsaDocTypeKindSummary,
    nodes: &Vec<SalsaDocTypeNodeSummary>,
    node_index: &HashMap<u32, usize>,
) -> (r: SalsaDocTypeLoweredKind)
    requires
        kind_chain_ends(nodes@, *kind),
        indexes_last_nodes(node_index@, nodes@),
    ensures
        kind_lowered(nodes@, *kind, r),
{
    match kind {
        SalsaDocTypeKindSummary::Name { name } => match name {
            Some(n) => SalsaDocTypeLoweredKind::Name { name: n.clone() },
            None => SalsaDocTypeLoweredKind::Unknown,
        },
        SalsaDocTypeKindSummary::Infer { generic_name } => match generic_name {
            Some(n) => SalsaDocTypeLoweredKind::Infer { generic_name: n.clone() },
            None => SalsaDocTypeLoweredKind::Unknown,
        },
        SalsaDocTypeKindSummary::Array { item_type_offset } => SalsaDocTypeLoweredKind::Array {
            item_type: lower_type_ref(*item_type_offset),
        },
        SalsaDocTypeKindSummary::Function { is_async, is_sync, generic_params, params, returns: rets } => {
            SalsaDocTypeLoweredKind::Function {
                is_async: *is_async,
                is_sync: *is_sync,
                generic_params: lower_generic_params(generic_params),
                params: lower_params(params),
                returns: lower_returns(rets),
            }
        },
        SalsaDocTypeKindSummary::Object { fields } => SalsaDocTypeLoweredKind::Object {
            fields: lower_object_fields(fields),
        },
        SalsaDocTypeKindSummary::Binary { op, left_type_offset, right_type_offset } => match op {
            SalsaDocTypeBinaryOperatorSummary::Union => SalsaDocTypeLoweredKind::Union {
                item_types: collect_binary_chain(
                    *left_type_offset,
                    *right_type_offset,
                    SalsaDocTypeBinaryOperatorSummary::Union,
                    nodes,
                    node_index,
                ),
            },
            SalsaDocTypeBinaryOperatorSummary::Intersection => SalsaDocTypeLoweredKind::Intersection {
                item_types: collect_binary_chain(
                    *left_type_offset,
                    *right_type_offset,
                    SalsaDocTypeBinaryOperatorSummary::Intersection,
                    nodes,
                    node_index,
                ),
            },
            _ => SalsaDocTypeLoweredKind::Binary {
                op: *op,
                left_type: lower_type_ref(*left_type_offset),
                right_type: lower_type_ref(*right_type_offset),
            },
        },
        SalsaDocTypeKindSummary::Unary { op, inner_type_offset } => SalsaDocTypeLoweredKind::Unary {
            op: *op,
            inner_type: lower_type_ref(*inner_type_offset),
        },
        SalsaDocTypeKindSummary::Conditional {
            condition_type_offset,
            true_type_offset,
            false_type_offset,
            has_new,
        } => SalsaDocTypeLoweredKind::Conditional {
            condition_type: lower_type_ref(*condition_type_offset),
            true_type: lower_type_ref(*true_type_offset),
            false_type: lower_type_ref(*false_type_offset),
            has_new: *has_new,
        },
        SalsaDocTypeKindSummary::Tuple { item_type_offsets } => SalsaDocTypeLoweredKind::Tuple {
            item_types: to_node_refs(item_type_offsets),
        },
        SalsaDocTypeKindSummary::Literal { text } => SalsaDocTypeLoweredKind::Literal { text: text.clone() },
        SalsaDocTypeKindSummary::Variadic { item_type_offset } => SalsaDocTypeLoweredKind::Variadic {
            item_type: lower_type_ref(*item_type_offset),
        },
        SalsaDocTypeKindSummary::Nullable { inner_type_offset } => SalsaDocTypeLoweredKind::Nullable {
            inner_type: lower_type_ref(*inner_type_offset),
        },
        SalsaDocTypeKindSummary::Generic { base_type_offset, arg_type_offsets } => SalsaDocTypeLoweredKind::Generic {
            base_type: lower_type_ref(*base_type_offset),
            arg_types: to_node_refs(arg_type_offsets),
        },
        SalsaDocTypeKindSummary::StringTemplate { prefix, interpolated, suffix } => {
            SalsaDocTypeLoweredKind::StringTemplate {
                prefix: clone_opt_string(prefix),
                interpolated: clone_opt_string(interpolated),
                suffix: clone_opt_string(suffix),
            }
        },
        SalsaDocTypeKindSummary::MultiLineUnion { item_type_offsets } => SalsaDocTypeLoweredKind::Union {
            item_types: to_node_refs(item_type_offsets),
        },
        SalsaDocTypeKindSummary::Attribute { params } => SalsaDocTypeLoweredKind::Attribute {
            params: lower_params(params),
        },
        SalsaDocTypeKindSummary::Mapped { key_type_offsets, value_type_offset, is_readonly, is_optional } => {
            SalsaDocTypeLoweredKind::Mapped {
                key_types: to_node_refs(key_type_offsets),
                value_type: lower_type_ref(*value_type_offset),
                is_readonly: *is_readonly,
                is_optional: *is_optional,
            }
        },
        SalsaDocTypeKindSummary::IndexAccess { base_type_offset, index_type_offset } => {
            SalsaDocTypeLoweredKind::IndexAccess {
                base_type: lower_type_ref(*base_type_offset),
                index_type: lower_type_ref(*index_type_offset),
            }
        },
    }
}

/// The lowered form of one node.
pub fn lower_doc_type_node(
    d: &SalsaDocTypeNodeSummary,
    nodes: &Vec<SalsaDocTypeNodeSummary>,
    node_index: &HashMap<u32, usize>,
) -> (r: SalsaDocTypeLoweredNode)
    requires
        kind_chain_ends(nodes@, d.kind),
        indexes_last_nodes(node_index@, nodes@),
    ensures
        node_lowered(nodes@, *d, r),
{
    SalsaDocTypeLoweredNode {
        key: d.key,
        syntax_offset: d.syntax_offset,
        syntax_id: d.syntax_id,
        kind: lower_doc_type_kind(&d.kind, nodes, node_index),
    }
}

/// Lowers every doc type node of a file, in order. The chains of unions and of
/// intersections must end (a chain that comes back to a node never ends).
pub fn build_lowered_doc_type_index(doc_types: &SalsaDocTypeIndexSummary) -> (r: SalsaDocTypeLoweredIndex)
    requires
        chain_ranked(doc_types.types@, SalsaDocTypeBinaryOperatorSummary::Union),
        chain_ranked(doc_types.types@, SalsaDocTypeBinaryOperatorSummary::Intersection),
    ensures
        r.types@.len() == doc_types.types@.len(),
        forall|i: int| 0 <= i < r.types@.len() ==> #[trigger] node_lowered(doc_types.types@, doc_types.types@[i], r.types@[i]),
{
    let nodes = &doc_types.types;
    let node_index = build_doc_type_node_index(nodes);
    let mut types: Vec<SalsaDocTypeLoweredNode> = Vec::new();
    let mut i: usize = 0;
    while i < nodes.len()
        invariant
            i <= nodes@.len(),
            nodes@ == doc_types.types@,
            indexes_last_nodes(node_index@, nodes@),
            chain_ranked(nodes@, SalsaDocTypeBinaryOperatorSummary::Union),
            chain_ranked(nodes@, SalsaDocTypeBinaryOperatorSummary::Intersection),
            types@.len() == i,
            forall|j: int| 0 <= j < i ==> #[trigger] node_lowered(nodes@, nodes@[j], types@[j]),
        decreases nodes@.len() - i,
    {
        types.push(lower_doc_type_node(&nodes[i], nodes, &node_index));
        i = i + 1;
    }
    SalsaDocTypeLoweredIndex { types }
}

/// The lowered doc type at `offset`: the first placed exactly there, else the
/// tightest whose syntax covers it (of equally tight ones, the earliest placed,
/// then the first listed).
pub fn find_lowered_doc_type_at(index: &SalsaDocTypeLoweredIndex, offset: u32) -> (r: Option<&SalsaDocTypeLoweredNode>)
    ensures
        match r {
            Some(x) => opt_at(index.types@, use_at_index(index.types@, offset)) == Some(*x),
            None => opt_at(index.types@, use_at_index(index.types@, offset)).is_none(),
        },
{
    match find_use_index_at(&index.types, offset) {
        Some(i) => Some(&index.types[i]),
        None => None,
    }
}

/// The first lowered doc type under `key`.
pub fn find_lowered_doc_type_by_key(index: &SalsaDocTypeLoweredIndex, key: u32) -> (r: Option<&SalsaDocTypeLoweredNode>)
    ensures
        match r {
            Some(x) => first_with_key(index.types@, key) == Some(*x),
            None => first_with_key(index.types@, key).is_none(),
        },
{
    proof { lemma_first_index_with_key(index.types@, key); }
    match find_first_index(&index.types, key) {
        Some(i) => Some(&index.types[i]),
        None => None,
    }
}

/// The resolved doc type at `offset`: the first whose offset is exactly there,
/// else the tightest whose node's syntax covers it.
pub fn find_resolved_doc_type_at(index: &SalsaDocTypeResolvedIndex, offset: u32) -> (r: Option<&SalsaDocTypeResolvedSummary>)
    ensures
        match r {
            Some(x) => opt_at(index.types@, use_at_index(index.types@, offset)) == Some(*x),
            None => opt_at(index.types@, use_at_index(index.types@, offset)).is_none(),
        },
{
    match find_use_index_at(&index.types, offset) {
        Some(i) => Some(&index.types[i]),
        None => None,
    }
}

/// The first resolved doc type under `key`.
pub fn find_resolved_doc_type_by_key(index: &SalsaDocTypeResolvedIndex, key: u32) -> (r: Option<&SalsaDocTypeResolvedSummary>)
    ensures
        match r {
            Some(x) => first_with_key(index.types@, key) == Some(*x),
            None => first_with_key(index.types@, key).is_none(),
        },
{
    proof { lemma_first_index_with_key(index.types@, key); }
    match find_first_index(&index.types, key) {
        Some(i) => Some(&index.types[i]),
        None => None,
    }
}

/// The first doc type node under `key` and the first lowered form under it,
/// when both exist.
pub fn find_resolved_doc_type_by_key_from_parts<'a>(
    doc_types: &'a SalsaDocTypeIndexSummary,
    lowered_types: &'a SalsaDocTypeLoweredIndex,
    key: u32,
) -> (r: Option<(&'a SalsaDocTypeNodeSummary, &'a SalsaDocTypeLoweredNode)>)
    ensures
        match r {
            Some((d, q)) => first_with_key(doc_types.types@, key) == Some(*d) && first_with_key(lowered_types.types@, key)
                == Some(*q),
            None => first_with_key(doc_types.types@, key).is_none() || first_with_key(lowered_types.types@, key).is_none(),
        },
{
    proof { lemma_first_index_with_key(doc_types.types@, key); }
    let d = match find_first_index(&doc_types.types, key) {
        Some(i) => &doc_types.types[i],
        None => return None,
    };
    match find_lowered_doc_type_by_key(lowered_types, key) {
        Some(q) => Some((d, q)),
        None => None,
    }
}

} // verus!
