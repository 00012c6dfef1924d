//! The properties that a file gives tables, declarations, members and types, and
//! the queries that find them by position, owner, source and key.
use vstd::prelude::*;

use crate::lexical::lemma_filter_take_step;
use crate::type_info::SalsaSyntaxIdSummary;

verus! {

/// How a property is keyed: by a name, by an integer, or by its position in a
/// list constructor (counting from 1).
#[derive(Clone, Debug)]
pub enum SalsaPropertyKeySummary {
    Name(String),
    Integer(i64),
    Sequence(usize),
}

/// Where a property is written.
#[derive(Clone, Copy, Debug, PartialEq, Eq, Structural)]
pub enum SalsaPropertySourceSummary {
    TableField,
    Assignment,
    DocField,
}

/// What a property belongs to: a declaration, a member (by target handle) or a
/// named type.
#[derive(Clone, Debug)]
pub enum SalsaPropertyOwnerSummary {
    Decl { decl_id: u32 },
    Member(u32),
    Type(String),
}

/// A property: where it is written, what owns it, its key, the value expression
/// and which of that expression's results it takes, and whether it stands for
/// the remaining results of a call that ends a list constructor; the doc type
/// that documents it, if any; and the call that gives its value, if any.
#[derive(Clone, Debug)]
pub struct SalsaPropertySummary {
    pub syntax_offset: u32,
    pub owner: SalsaPropertyOwnerSummary,
    pub key: SalsaPropertyKeySummary,
    pub source: SalsaPropertySourceSummary,
    pub value_expr_syntax_id: Option<SalsaSyntaxIdSummary>,
    pub value_expr_offset: Option<u32>,
    pub value_result_index: usize,
    pub expands_multi_result_tail: bool,
    pub doc_type_offset: Option<u32>,
    pub source_call_syntax_id: Option<SalsaSyntaxIdSummary>,
}

#[derive(Clone, Debug)]
pub struct SalsaPropertyIndexSummary {
    pub properties: Vec<SalsaPropertySummary>,
}

/// The properties of a file, queried by position, owner, source and key.
#[derive(Clone, Debug)]
pub struct SalsaPropertyQueryIndex {
    pub properties: Vec<SalsaPropertySummary>,
}

pub enum PropertyKeyView {
    Name(Seq<char>),
    Integer(i64),
    Sequence(usize),
}

pub enum PropertyOwnerView {
    Decl(u32),
    Member(u32),
    Type(Seq<char>),
}

pub struct PropertyView {
    pub syntax_offset: u32,
    pub owner: PropertyOwnerView,
    pub key: PropertyKeyView,
    pub source: SalsaPropertySourceSummary,
    pub value_expr_syntax_id: Option<SalsaSyntaxIdSummary>,
    pub value_expr_offset: Option<u32>,
    pub value_result_index: usize,
    pub expands_multi_result_tail: bool,
    pub doc_type_offset: Option<u32>,
    pub source_call_syntax_id: Option<SalsaSyntaxIdSummary>,
}

impl View for SalsaPropertyKeySummary {
    type V = PropertyKeyView;

    open spec fn view(&self) -> PropertyKeyView {
        match self {
            SalsaPropertyKeySummary::Name(n) => PropertyKeyView::Name(n@),
            SalsaPropertyKeySummary::Integer(i) => PropertyKeyView::Integer(*i),
            SalsaPropertyKeySummary::Sequence(s) => PropertyKeyView::Sequence(*s),
        }
    }
}

impl View for SalsaPropertyOwnerSummary {
    type V = PropertyOwnerView;

    open spec fn view(&self) -> PropertyOwnerView {
        match self {
            SalsaPropertyOwnerSummary::Decl { decl_id } => PropertyOwnerView::Decl(*decl_id),
            SalsaPropertyOwnerSummary::Member(t) => PropertyOwnerView::Member(*t),
            SalsaPropertyOwnerSummary::Type(n) => PropertyOwnerView::Type(n@),
        }
    }
}

impl View for SalsaPropertySummary {
    type V = PropertyView;

    open spec fn view(&self) -> PropertyView {
        PropertyView {
            syntax_offset: self.syntax_offset,
            owner: self.owner@,
            key: self.key@,
            source: self.source,
            value_expr_syntax_id: self.value_expr_syntax_id,
            value_expr_offset: self.value_expr_offset,
            value_result_index: self.value_result_index,
            expands_multi_result_tail: self.expands_multi_result_tail,
            doc_type_offset: self.doc_type_offset,
            source_call_syntax_id: self.source_call_syntax_id,
        }
    }
}

pub open spec fn props_view(s: Seq<SalsaPropertySummary>) -> Seq<PropertyView> {
    s.map_values(|p: SalsaPropertySummary| p@)
}

pub open spec fn opt_prop_view(p: Option<SalsaPropertySummary>) -> Option<PropertyView> {
    match p {
        Some(p) => Some(p@),
        None => None,
    }
}

/// The position a key asks for: a positive integer key or a list position.
pub open spec fn spec_numeric_key_index(key: PropertyKeyView) -> Option<usize> {
    match key {
        PropertyKeyView::Integer(v) => if v > 0 { Some(v as usize) } else { None },
        PropertyKeyView::Sequence(v) => Some(v),
        _ => None,
    }
}

/// A property that stands for the remaining results of a call at list position
/// `base` answers a request for a later position (or for the same position
/// asked as an integer): it is the call's result at that position.
pub open spec fn spec_expand_multi_result_tail(p: PropertyView, requested: PropertyKeyView) -> Option<PropertyView> {
    match spec_numeric_key_index(requested) {
        None => None,
        Some(req) => match p.key {
            PropertyKeyView::Sequence(base) => {
                if !p.expands_multi_result_tail || req < base {
                    None
                } else if req == base && requested == PropertyKeyView::Sequence(base) {
                    None
                } else {
                    Some(PropertyView {
                        key: requested,
                        value_result_index: (p.value_result_index + (req - base)) as usize,
                        ..p
                    })
                }
            },
            _ => None,
        },
    }
}

/// Expanding a property for `requested` stays within the machine's integers.
pub open spec fn spec_expansion_fits(p: PropertyView, requested: PropertyKeyView) -> bool {
    match (spec_numeric_key_index(requested), p.key) {
        (Some(req), PropertyKeyView::Sequence(base)) => p.expands_multi_result_tail && req >= base ==> p.value_result_index + (req - base) <= usize::MAX,
        _ => true,
    }
}

pub open spec fn spec_expansions_fit(s: Seq<PropertyView>, requested: PropertyKeyView) -> bool {
    forall|i: int| 0 <= i < s.len() ==> spec_expansion_fits(#[trigger] s[i], requested)
}

/// Keeps the first of equal properties.
pub open spec fn spec_dedupe(s: Seq<PropertyView>) -> Seq<PropertyView>
    decreases s.len(),
{
    if s.len() == 0 {
        s
    } else {
        let d = spec_dedupe(s.drop_last());
        if d.contains(s.last()) { d } else { d.push(s.last()) }
    }
}

pub open spec fn owned_by_decl(p: PropertyView, decl_id: u32) -> bool {
    p.owner == PropertyOwnerView::Decl(decl_id)
}

pub open spec fn owned_by_member(p: PropertyView, target: u32) -> bool {
    p.owner == PropertyOwnerView::Member(target)
}

pub open spec fn owned_by_type(p: PropertyView, name: Seq<char>) -> bool {
    p.owner == PropertyOwnerView::Type(name)
}

/// The properties asked for under `key` among those of one owner: those keyed
/// so, then those that stand for a call's remaining results and cover the key,
/// without repeats.
pub open spec fn spec_owner_key_properties(owned: Seq<PropertyView>, key: PropertyKeyView) -> Seq<PropertyView> {
    spec_dedupe(
        owned.filter(|p: PropertyView| p.key == key) + owned.filter_map(
            |p: PropertyView| spec_expand_multi_result_tail(p, key),
        ),
    )
}

fn clone_key(k: &SalsaPropertyKeySummary) -> (r: SalsaPropertyKeySummary)
    ensures
        r@ == k@,
{
    match k {
        SalsaPropertyKeySummary::Name(n) => SalsaPropertyKeySummary::Name(n.clone()),
        SalsaPropertyKeySummary::Integer(i) => SalsaPropertyKeySummary::Integer(*i),
        SalsaPropertyKeySummary::Sequence(s) => SalsaPropertyKeySummary::Sequence(*s),
    }
}

pub(crate) fn clone_property(p: &SalsaPropertySummary) -> (r: SalsaPropertySummary)
    ensures
        r@ == p@,
{
    SalsaPropertySummary {
        syntax_offset: p.syntax_offset,
        owner: match &p.owner {
            SalsaPropertyOwnerSummary::Decl { decl_id } => SalsaPropertyOwnerSummary::Decl { decl_id: *decl_id },
            SalsaPropertyOwnerSummary::Member(t) => SalsaPropertyOwnerSummary::Member(*t),
            SalsaPropertyOwnerSummary::Type(n) => SalsaPropertyOwnerSummary::Type(n.clone()),
        },
        key: clone_key(&p.key),
        source: p.source,
        value_expr_syntax_id: p.value_expr_syntax_id,
        value_expr_offset: p.value_expr_offset,
        value_result_index: p.value_result_index,
        expands_multi_result_tail: p.expands_multi_result_tail,
        doc_type_offset: p.doc_type_offset,
        source_call_syntax_id: p.source_call_syntax_id,
    }
}

fn keys_equal(a: &SalsaPropertyKeySummary, b: &SalsaPropertyKeySummary) -> (r: bool)
    ensures
        r == (a@ == b@),
{
    match (a, b) {
        (SalsaPropertyKeySummary::Name(x), SalsaPropertyKeySummary::Name(y)) => *x == *y,
        (SalsaPropertyKeySummary::Integer(x), SalsaPropertyKeySummary::Integer(y)) => *x == *y,
        (SalsaPropertyKeySummary::Sequence(x), SalsaPropertyKeySummary::Sequence(y)) => *x == *y,
        _ => false,
    }
}

fn owners_equal(a: &SalsaPropertyOwnerSummary, b: &SalsaPropertyOwnerSummary) -> (r: bool)
    ensures
        r == (a@ == b@),
{
    match (a, b) {
        (SalsaPropertyOwnerSummary::Decl { decl_id: x }, SalsaPropertyOwnerSummary::Decl { decl_id: y }) => *x == *y,
        (SalsaPropertyOwnerSummary::Member(x), SalsaPropertyOwnerSummary::Member(y)) => *x == *y,
        (SalsaPropertyOwnerSummary::Type(x), SalsaPropertyOwnerSummary::Type(y)) => *x == *y,
        _ => false,
    }
}

fn properties_equal(a: &SalsaPropertySummary, b: &SalsaPropertySummary) -> (r: bool)
    ensures
        r == (a@ == b@),
{
    a.syntax_offset == b.syntax_offset && owners_equal(&a.owner, &b.owner) && keys_equal(&a.key, &b.key)
        && a.source == b.source && a.value_expr_syntax_id == b.value_expr_syntax_id && a.value_expr_offset
        == b.value_expr_offset && a.value_result_index == b.value_result_index && a.expands_multi_result_tail
        == b.expands_multi_result_tail && a.doc_type_offset == b.doc_type_offset
            && a.source_call_syntax_id == b.source_call_syntax_id
}

pub(crate) fn clone_properties(v: &Vec<SalsaPropertySummary>) -> (r: Vec<SalsaPropertySummary>)
    ensures
        props_view(r@) == props_view(v@),
{
    let mut r: Vec<SalsaPropertySummary> = Vec::new();
    let mut i: usize = 0;
    while i < v.len()
        invariant
            i <= v@.len(),
            props_view(r@) == props_view(v@).take(i as int),
        decreases v@.len() - i,
    {
        let ghost before = r@;
        r.push(clone_property(&v[i]));
        assert(props_view(r@) =~= props_view(before).push(v@[i as int]@));
        assert(props_view(v@).take(i + 1) =~= props_view(v@).take(i as int).push(v@[i as int]@));
        i = i + 1;
    }
    assert(props_view(v@).take(i as int) =~= props_view(v@));
    r
}

/// Gathers a file's properties for querying.
pub fn build_property_query_index(properties: &SalsaPropertyIndexSummary) -> (r: SalsaPropertyQueryIndex)
    ensures
        props_view(r.properties@) == props_view(properties.properties@),
{
    SalsaPropertyQueryIndex { properties: clone_properties(&properties.properties) }
}

/// Index of the first property placed at `offset`, or -1.
pub open spec fn first_property_at(s: Seq<PropertyView>, offset: u32) -> int
    decreases s.len(),
{
    if s.len() == 0 {
        -1
    } else if s[0].syntax_offset == offset {
        0
    } else {
        let r = first_property_at(s.drop_first(), offset);
        if r == -1 { -1 } else { r + 1 }
    }
}

/// Index of the first property whose value expression is `syntax_id`, or -1.
pub open spec fn first_property_with_value(s: Seq<PropertyView>, syntax_id: SalsaSyntaxIdSummary) -> int
    decreases s.len(),
{
    if s.len() == 0 {
        -1
    } else if s[0].value_expr_syntax_id == Some(syntax_id) {
        0
    } else {
        let r = first_property_with_value(s.drop_first(), syntax_id);
        if r == -1 { -1 } else { r + 1 }
    }
}

pub open spec fn opt_view_at(s: Seq<PropertyView>, i: int) -> Option<PropertyView> {
    if 0 <= i < s.len() { Some(s[i]) } else { None }
}

proof fn lemma_first_property_at(s: Seq<PropertyView>, offset: u32)
    ensures
        -1 <= first_property_at(s, offset) < s.len(),
        first_property_at(s, offset) >= 0 ==> s[first_property_at(s, offset)].syntax_offset == offset,
        forall|j: int|
            0 <= j < s.len() && (first_property_at(s, offset) == -1 || j < first_property_at(s, offset))
                ==> s[j].syntax_offset != offset,
    decreases s.len(),
{
    if s.len() > 0 && s[0].syntax_offset != offset {
        lemma_first_property_at(s.drop_first(), offset);
        assert forall|j: int|
            0 <= j < s.len() && (first_property_at(s, offset) == -1 || j < first_property_at(s, offset))
                implies s[j].syntax_offset != offset by {
            if j > 0 {
                assert(s[j] == s.drop_first()[j - 1]);
            }
        }
    }
}

proof fn lemma_first_property_with_value(s: Seq<PropertyView>, syntax_id: SalsaSyntaxIdSummary)
    ensures
        -1 <= first_property_with_value(s, syntax_id) < s.len(),
        first_property_with_value(s, syntax_id) >= 0 ==> s[first_property_with_value(s, syntax_id)].value_expr_syntax_id
            == Some(syntax_id),
        forall|j: int|
            0 <= j < s.len() && (first_property_with_value(s, syntax_id) == -1 || j < first_property_with_value(
                s,
                syntax_id,
            )) ==> s[j].value_expr_syntax_id != Some(syntax_id),
    decreases s.len(),
{
    if s.len() > 0 && s[0].value_expr_syntax_id != Some(syntax_id) {
        lemma_first_property_with_value(s.drop_first(), syntax_id);
        assert forall|j: int|
            0 <= j < s.len() && (first_property_with_value(s, syntax_id) == -1 || j < first_property_with_value(
                s,
                syntax_id,
            )) implies s[j].value_expr_syntax_id != Some(syntax_id) by {
            if j > 0 {
                assert(s[j] == s.drop_first()[j - 1]);
            }
        }
    }
}

/// The first property placed at `syntax_offset`.
pub fn find_property_at_in_index(index: &SalsaPropertyQueryIndex, syntax_offset: u32) -> (r: Option<
    SalsaPropertySummary,
>)
    ensures
        opt_prop_view(r) == opt_view_at(
            props_view(index.properties@),
            first_property_at(props_view(index.properties@), syntax_offset),
        ),
{
    let ghost v = props_view(index.properties@);
    proof { lemma_first_property_at(v, syntax_offset); }
    let mut i: usize = 0;
    while i < index.properties.len()
        invariant
            v == props_view(index.properties@),
            i <= v.len(),
            forall|j: int| 0 <= j < i ==> v[j].syntax_offset != syntax_offset,
            -1 <= first_property_at(v, syntax_offset) < v.len(),
            first_property_at(v, syntax_offset) >= 0 ==> v[first_property_at(v, syntax_offset)].syntax_offset
                == syntax_offset,
            forall|j: int|
                0 <= j < v.len() && (first_property_at(v, syntax_offset) == -1 || j < first_property_at(
                    v,
                    syntax_offset,
                )) ==> v[j].syntax_offset != syntax_offset,
        decreases v.len() - i,
    {
        assert(v[i as int] == index.properties@[i as int]@);
        if index.properties[i].syntax_offset == syntax_offset {
            return Some(clone_property(&index.properties[i]));
        }
        i = i + 1;
    }
    None
}

/// The first property whose value expression is `syntax_id`.
pub fn find_property_by_value_expr_syntax_id_in_index(
    index: &SalsaPropertyQueryIndex,
    syntax_id: SalsaSyntaxIdSummary,
) -> (r: Option<SalsaPropertySummary>)
    ensures
        opt_prop_view(r) == opt_view_at(
            props_view(index.properties@),
            first_property_with_value(props_view(index.properties@), syntax_id),
        ),
{
    let ghost v = props_view(index.properties@);
    proof { lemma_first_property_with_value(v, syntax_id); }
    let mut i: usize = 0;
    while i < index.properties.len()
        invariant
            v == props_view(index.properties@),
            i <= v.len(),
            forall|j: int| 0 <= j < i ==> v[j].value_expr_syntax_id != Some(syntax_id),
            -1 <= first_property_with_value(v, syntax_id) < v.len(),
            first_property_with_value(v, syntax_id) >= 0 ==> v[first_property_with_value(
                v,
                syntax_id,
            )].value_expr_syntax_id == Some(syntax_id),
            forall|j: int|
                0 <= j < v.len() && (first_property_with_value(v, syntax_id) == -1 || j < first_property_with_value(
                    v,
                    syntax_id,
                )) ==> v[j].value_expr_syntax_id != Some(syntax_id),
        decreases v.len() - i,
    {
        assert(v[i as int] == index.properties@[i as int]@);
        if index.properties[i].value_expr_syntax_id == Some(syntax_id) {
            return Some(clone_property(&index.properties[i]));
        }
        i = i + 1;
    }
    None
}

/// The first property placed at `syntax_offset`.
pub fn find_property_at(properties: &SalsaPropertyIndexSummary, syntax_offset: u32) -> (r: Option<
    SalsaPropertySummary,
>)
    ensures
        opt_prop_view(r) == opt_view_at(
            props_view(properties.properties@),
            first_property_at(props_view(properties.properties@), syntax_offset),
        ),
{
    let index = build_property_query_index(properties);
    find_property_at_in_index(&index, syntax_offset)
}

/// The first property whose value expression is `syntax_id`.
pub fn find_property_by_value_expr_syntax_id(
    properties: &SalsaPropertyIndexSummary,
    syntax_id: SalsaSyntaxIdSummary,
) -> (r: Option<SalsaPropertySummary>)
    ensures
        opt_prop_view(r) == opt_view_at(
            props_view(properties.properties@),
            first_property_with_value(props_view(properties.properties@), syntax_id),
        ),
{
    let index = build_property_query_index(properties);
    find_property_by_value_expr_syntax_id_in_index(&index, syntax_id)
}

/// The properties of the declaration `decl_id`, in order.
pub fn collect_properties_for_decl_in_index(index: &SalsaPropertyQueryIndex, decl_id: u32) -> (r: Vec<SalsaPropertySummary>)
    ensures
        props_view(r@) == props_view(index.properties@).filter(|p: PropertyView| owned_by_decl(p, decl_id)),
{
    let ghost v = props_view(index.properties@);
    let mut r: Vec<SalsaPropertySummary> = Vec::new();
    let mut i: usize = 0;
    while i < index.properties.len()
        invariant
            v == props_view(index.properties@),
            i <= v.len(),
            props_view(r@) == v.take(i as int).filter(|p: PropertyView| owned_by_decl(p, decl_id)),
        decreases v.len() - i,
    {
        proof { lemma_filter_take_step(v, |p: PropertyView| owned_by_decl(p, decl_id), i as int); }
        assert(v[i as int] == index.properties@[i as int]@);
        let p = &index.properties[i];
        if matches!(p.owner, SalsaPropertyOwnerSummary::Decl { decl_id: d } if d == decl_id) {
            let ghost before = r@;
            r.push(clone_property(p));
            assert(props_view(r@) =~= props_view(before).push(v[i as int]));
        }
        i = i + 1;
    }
    assert(v.take(i as int) =~= v);
    r
}

/// The properties of the member with target handle `member_target`, in order.
pub fn collect_properties_for_member_in_index(index: &SalsaPropertyQueryIndex, member_target: u32) -> (r: Vec<SalsaPropertySummary>)
    ensures
        props_view(r@) == props_view(index.properties@).filter(|p: PropertyView| owned_by_member(p, member_target)),
{
    let ghost v = props_view(index.properties@);
    let mut r: Vec<SalsaPropertySummary> = Vec::new();
    let mut i: usize = 0;
    while i < index.properties.len()
        invariant
            v == props_view(index.properties@),
            i <= v.len(),
            props_view(r@) == v.take(i as int).filter(|p: PropertyView| owned_by_member(p, member_target)),
        decreases v.len() - i,
    {
        proof { lemma_filter_take_step(v, |p: PropertyView| owned_by_member(p, member_target), i as int); }
        assert(v[i as int] == index.properties@[i as int]@);
        let p = &index.properties[i];
        if matches!(p.owner, SalsaPropertyOwnerSummary::Member(t) if t == member_target) {
            let ghost before = r@;
            r.push(clone_property(p));
            assert(props_view(r@) =~= props_view(before).push(v[i as int]));
        }
        i = i + 1;
    }
    assert(v.take(i as int) =~= v);
    r
}

/// The properties of the type `owner_type`, in order.
pub fn collect_properties_for_type_in_index(index: &SalsaPropertyQueryIndex, owner_type: &str) -> (r: Vec<SalsaPropertySummary>)
    ensures
        props_view(r@) == props_view(index.properties@).filter(|p: PropertyView| owned_by_type(p, owner_type@)),
{
    let wanted = owner_type.to_owned();
    let ghost v = props_view(index.properties@);
    let mut r: Vec<SalsaPropertySummary> = Vec::new();
    let mut i: usize = 0;
    while i < index.properties.len()
        invariant
            v == props_view(index.properties@),
            wanted@ == owner_type@,
            i <= v.len(),
            props_view(r@) == v.take(i as int).filter(|p: PropertyView| owned_by_type(p, owner_type@)),
        decreases v.len() - i,
    {
        proof { lemma_filter_take_step(v, |p: PropertyView| owned_by_type(p, owner_type@), i as int); }
        assert(v[i as int] == index.properties@[i as int]@);
        let p = &index.properties[i];
        if owner_is_type(&p.owner, &wanted) {
            let ghost before = r@;
            r.push(clone_property(p));
            assert(props_view(r@) =~= props_view(before).push(v[i as int]));
        }
        i = i + 1;
    }
    assert(v.take(i as int) =~= v);
    r
}

/// The properties written in the way `source` names, in order.
pub fn collect_properties_for_source_in_index(index: &SalsaPropertyQueryIndex, source: &SalsaPropertySourceSummary) -> (r: Vec<SalsaPropertySummary>)
    ensures
        props_view(r@) == props_view(index.properties@).filter(|p: PropertyView| p.source == *source),
{
    let ghost v = props_view(index.properties@);
    let mut r: Vec<SalsaPropertySummary> = Vec::new();
    let mut i: usize = 0;
    while i < index.properties.len()
        invariant
            v == props_view(index.properties@),
            i <= v.len(),
            props_view(r@) == v.take(i as int).filter(|p: PropertyView| p.source == *source),
        decreases v.len() - i,
    {
        proof { lemma_filter_take_step(v, |p: PropertyView| p.source == *source, i as int); }
        assert(v[i as int] == index.properties@[i as int]@);
        let p = &index.properties[i];
        if p.source == *source {
            let ghost before = r@;
            r.push(clone_property(p));
            assert(props_view(r@) =~= props_view(before).push(v[i as int]));
        }
        i = i + 1;
    }
    assert(v.take(i as int) =~= v);
    r
}

/// The properties keyed `key`, in order.
pub fn collect_properties_for_key_in_index(index: &SalsaPropertyQueryIndex, key: &SalsaPropertyKeySummary) -> (r: Vec<SalsaPropertySummary>)
    ensures
        props_view(r@) == props_view(index.properties@).filter(|p: PropertyView| p.key == key@),
{
    let ghost v = props_view(index.properties@);
    let mut r: Vec<SalsaPropertySummary> = Vec::new();
    let mut i: usize = 0;
    while i < index.properties.len()
        invariant
            v == props_view(index.properties@),
            i <= v.len(),
            props_view(r@) == v.take(i as int).filter(|p: PropertyView| p.key == key@),
        decreases v.len() - i,
    {
        proof { lemma_filter_take_step(v, |p: PropertyView| p.key == key@, i as int); }
        assert(v[i as int] == index.properties@[i as int]@);
        let p = &index.properties[i];
        if keys_equal(&p.key, key) {
            let ghost before = r@;
            r.push(clone_property(p));
            assert(props_view(r@) =~= props_view(before).push(v[i as int]));
        }
        i = i + 1;
    }
    assert(v.take(i as int) =~= v);
    r
}

fn owner_is_type(owner: &SalsaPropertyOwnerSummary, name: &String) -> (r: bool)
    ensures
        r == (owner@ == PropertyOwnerView::Type(name@)),
{
    match owner {
        SalsaPropertyOwnerSummary::Type(n) => *n == *name,
        _ => false,
    }
}

fn numeric_key_index(key: &SalsaPropertyKeySummary) -> (r: Option<usize>)
    ensures
        r == spec_numeric_key_index(key@),
{
    match key {
        SalsaPropertyKeySummary::Integer(value) => if *value > 0 { Some(*value as usize) } else { None },
        SalsaPropertyKeySummary::Sequence(value) => Some(*value),
        _ => None,
    }
}

/// The property that answers `requested_key` for the remaining results of a call,
/// if `property` stands for them.
fn expand_multi_result_tail_property(
    property: &SalsaPropertySummary,
    requested_key: &SalsaPropertyKeySummary,
) -> (r: Option<SalsaPropertySummary>)
    requires
        spec_expansion_fits(property@, requested_key@),
    ensures
        opt_prop_view(r) == spec_expand_multi_result_tail(property@, requested_key@),
{
    let requested_index = match numeric_key_index(requested_key) {
        Some(i) => i,
        None => {
            return None;
        },
    };
    let base_index = match property.key {
        SalsaPropertyKeySummary::Sequence(b) => b,
        _ => {
            return None;
        },
    };
    if !property.expands_multi_result_tail || requested_index < base_index {
        return None;
    }
    if requested_index == base_index && matches!(requested_key, SalsaPropertyKeySummary::Sequence(k) if *k == base_index) {
        return None;
    }
    let mut expanded = clone_property(property);
    expanded.key = clone_key(requested_key);
    expanded.value_result_index = expanded.value_result_index + (requested_index - base_index);
    Some(expanded)
}

/// Appends the expansions of `owned` for `requested_key` to `out`.
fn push_expanded_multi_result_tail_properties(
    out: &mut Vec<SalsaPropertySummary>,
    owned: &Vec<SalsaPropertySummary>,
    requested_key: &SalsaPropertyKeySummary,
)
    requires
        spec_expansions_fit(props_view(owned@), requested_key@),
    ensures
        props_view(final(out)@) == props_view(old(out)@) + props_view(owned@).filter_map(
            |p: PropertyView| spec_expand_multi_result_tail(p, requested_key@),
        ),
{
    let ghost v = props_view(owned@);
    let ghost start = props_view(out@);
    let mut i: usize = 0;
    while i < owned.len()
        invariant
            v == props_view(owned@),
            spec_expansions_fit(v, requested_key@),
            i <= v.len(),
            props_view(out@) == start + v.take(i as int).filter_map(
                |p: PropertyView| spec_expand_multi_result_tail(p, requested_key@),
            ),
        decreases v.len() - i,
    {
        assert(v[i as int] == owned@[i as int]@);
        assert(v.take(i + 1).drop_last() =~= v.take(i as int));
        assert(v.take(i + 1).last() == v[i as int]);
        let ghost before = out@;
        match expand_multi_result_tail_property(&owned[i], requested_key) {
            Some(p) => {
                out.push(p);
                assert(props_view(out@) =~= props_view(before).push(p@));
            },
            None => {},
        }
        i = i + 1;
        assert(props_view(out@) =~= start + v.take(i as int).filter_map(
            |p: PropertyView| spec_expand_multi_result_tail(p, requested_key@),
        ));
    }
    assert(v.take(i as int) =~= v);
}

/// Keeps the first of equal properties.
fn dedupe_properties(properties: Vec<SalsaPropertySummary>) -> (r: Vec<SalsaPropertySummary>)
    ensures
        props_view(r@) == spec_dedupe(props_view(properties@)),
{
    let ghost v = props_view(properties@);
    let mut deduped: Vec<SalsaPropertySummary> = Vec::new();
    let mut i: usize = 0;
    while i < properties.len()
        invariant
            v == props_view(properties@),
            i <= v.len(),
            props_view(deduped@) == spec_dedupe(v.take(i as int)),
        decreases v.len() - i,
    {
        assert(v.take(i + 1).drop_last() =~= v.take(i as int));
        assert(v.take(i + 1).last() == v[i as int]);
        assert(v[i as int] == properties@[i as int]@);
        let mut found = false;
        let mut k: usize = 0;
        while k < deduped.len()
            invariant
                k <= deduped@.len(),
                found == (exists|j: int| 0 <= j < k && deduped@[j]@ == properties@[i as int]@),
                i < properties@.len(),
            decreases deduped@.len() - k,
        {
            if properties_equal(&deduped[k], &properties[i]) {
                found = true;
            }
            k = k + 1;
        }
        proof {
            let d = props_view(deduped@);
            if found {
                let j = choose|j: int| 0 <= j < k && deduped@[j]@ == properties@[i as int]@;
                assert(d[j] == v[i as int]);
                assert(d.contains(v[i as int]));
            } else {
                assert forall|j: int| 0 <= j < d.len() implies d[j] != v[i as int] by {
                    assert(d[j] == deduped@[j]@);
                }
                assert(!d.contains(v[i as int]));
            }
        }
        if !found {
            let ghost before = deduped@;
            deduped.push(clone_property(&properties[i]));
            assert(props_view(deduped@) =~= props_view(before).push(v[i as int]));
        }
        i = i + 1;
    }
    assert(v.take(i as int) =~= v);
    deduped
}

/// The properties of the declaration `decl_id` that answer `key`: those keyed so, then those that stand for the
/// remaining results of a call and cover the key, without repeats.
pub fn collect_properties_for_decl_and_key_in_index(index: &SalsaPropertyQueryIndex, decl_id: u32, key: &SalsaPropertyKeySummary) -> (r: Vec<SalsaPropertySummary>)
    requires
        spec_expansions_fit(props_view(index.properties@).filter(|p: PropertyView| owned_by_decl(p, decl_id)), key@),
    ensures
        props_view(r@) == spec_owner_key_properties(
            props_view(index.properties@).filter(|p: PropertyView| owned_by_decl(p, decl_id)),
            key@,
        ),
{
    let owned = collect_properties_for_decl_in_index(index, decl_id);
    let ghost owned_view = props_view(owned@);
    let mut properties: Vec<SalsaPropertySummary> = Vec::new();
    let mut i: usize = 0;
    while i < owned.len()
        invariant
            owned_view == props_view(owned@),
            i <= owned_view.len(),
            props_view(properties@) == owned_view.take(i as int).filter(|p: PropertyView| p.key == key@),
        decreases owned_view.len() - i,
    {
        proof { lemma_filter_take_step(owned_view, |p: PropertyView| p.key == key@, i as int); }
        assert(owned_view[i as int] == owned@[i as int]@);
        if keys_equal(&owned[i].key, key) {
            let ghost before = properties@;
            properties.push(clone_property(&owned[i]));
            assert(props_view(properties@) =~= props_view(before).push(owned_view[i as int]));
        }
        i = i + 1;
    }
    assert(owned_view.take(i as int) =~= owned_view);
    push_expanded_multi_result_tail_properties(&mut properties, &owned, key);
    dedupe_properties(properties)
}

/// The properties of the member with target handle `member_target` that answer `key`, as for a declaration.
pub fn collect_properties_for_member_and_key_in_index(index: &SalsaPropertyQueryIndex, member_target: u32, key: &SalsaPropertyKeySummary) -> (r: Vec<SalsaPropertySummary>)
    requires
        spec_expansions_fit(props_view(index.properties@).filter(|p: PropertyView| owned_by_member(p, member_target)), key@),
    ensures
        props_view(r@) == spec_owner_key_properties(
            props_view(index.properties@).filter(|p: PropertyView| owned_by_member(p, member_target)),
            key@,
        ),
{
    let owned = collect_properties_for_member_in_index(index, member_target);
    let ghost owned_view = props_view(owned@);
    let mut properties: Vec<SalsaPropertySummary> = Vec::new();
    let mut i: usize = 0;
    while i < owned.len()
        invariant
            owned_view == props_view(owned@),
            i <= owned_view.len(),
            props_view(properties@) == owned_view.take(i as int).filter(|p: PropertyView| p.key == key@),
        decreases owned_view.len() - i,
    {
        proof { lemma_filter_take_step(owned_view, |p: PropertyView| p.key == key@, i as int); }
        assert(owned_view[i as int] == owned@[i as int]@);
        if keys_equal(&owned[i].key, key) {
            let ghost before = properties@;
            properties.push(clone_property(&owned[i]));
            assert(props_view(properties@) =~= props_view(before).push(owned_view[i as int]));
        }
        i = i + 1;
    }
    assert(owned_view.take(i as int) =~= owned_view);
    push_expanded_multi_result_tail_properties(&mut properties, &owned, key);
    dedupe_properties(properties)
}

/// The properties of the type `owner_type` that answer `key`, as for a declaration.
pub fn collect_properties_for_type_and_key_in_index(index: &SalsaPropertyQueryIndex, owner_type: &str, key: &SalsaPropertyKeySummary) -> (r: Vec<SalsaPropertySummary>)
    requires
        spec_expansions_fit(props_view(index.properties@).filter(|p: PropertyView| owned_by_type(p, owner_type@)), key@),
    ensures
        props_view(r@) == spec_owner_key_properties(
            props_view(index.properties@).filter(|p: PropertyView| owned_by_type(p, owner_type@)),
            key@,
        ),
{
    let owned = collect_properties_for_type_in_index(index, owner_type);
    let ghost owned_view = props_view(owned@);
    let mut properties: Vec<SalsaPropertySummary> = Vec::new();
    let mut i: usize = 0;
    while i < owned.len()
        invariant
            owned_view == props_view(owned@),
            i <= owned_view.len(),
            props_view(properties@) == owned_view.take(i as int).filter(|p: PropertyView| p.key == key@),
        decreases owned_view.len() - i,
    {
        proof { lemma_filter_take_step(owned_view, |p: PropertyView| p.key == key@, i as int); }
        assert(owned_view[i as int] == owned@[i as int]@);
        if keys_equal(&owned[i].key, key) {
            let ghost before = properties@;
            properties.push(clone_property(&owned[i]));
            assert(props_view(properties@) =~= props_view(before).push(owned_view[i as int]));
        }
        i = i + 1;
    }
    assert(owned_view.take(i as int) =~= owned_view);
    push_expanded_multi_result_tail_properties(&mut properties, &owned, key);
    dedupe_properties(properties)
}

/// The properties of the declaration `decl_id`, in order.
pub fn collect_properties_for_decl(properties: &SalsaPropertyIndexSummary, decl_id: u32) -> (r: Vec<SalsaPropertySummary>)
    ensures
        props_view(r@) == props_view(properties.properties@).filter(|p: PropertyView| owned_by_decl(p, decl_id)),
{
    let index = build_property_query_index(properties);
    collect_properties_for_decl_in_index(&index, decl_id)
}

/// The properties of the member with target handle `member_target`, in order.
pub fn collect_properties_for_member(properties: &SalsaPropertyIndexSummary, member_target: u32) -> (r: Vec<SalsaPropertySummary>)
    ensures
        props_view(r@) == props_view(properties.properties@).filter(|p: PropertyView| owned_by_member(p, member_target)),
{
    let index = build_property_query_index(properties);
    collect_properties_for_member_in_index(&index, member_target)
}

/// The properties of the type `owner_type`, in order.
pub fn collect_properties_for_type(properties: &SalsaPropertyIndexSummary, owner_type: &str) -> (r: Vec<SalsaPropertySummary>)
    ensures
        props_view(r@) == props_view(properties.properties@).filter(|p: PropertyView| owned_by_type(p, owner_type@)),
{
    let index = build_property_query_index(properties);
    collect_properties_for_type_in_index(&index, owner_type)
}

/// The properties written in the way `source` names, in order.
pub fn collect_properties_for_source(properties: &SalsaPropertyIndexSummary, source: &SalsaPropertySourceSummary) -> (r: Vec<SalsaPropertySummary>)
    ensures
        props_view(r@) == props_view(properties.properties@).filter(|p: PropertyView| p.source == *source),
{
    let index = build_property_query_index(properties);
    collect_properties_for_source_in_index(&index, source)
}

/// The properties keyed `key`, in order.
pub fn collect_properties_for_key(properties: &SalsaPropertyIndexSummary, key: &SalsaPropertyKeySummary) -> (r: Vec<SalsaPropertySummary>)
    ensures
        props_view(r@) == props_view(properties.properties@).filter(|p: PropertyView| p.key == key@),
{
    let index = build_property_query_index(properties);
    collect_properties_for_key_in_index(&index, key)
}

/// The properties of the declaration `decl_id` that answer `key`.
pub fn collect_properties_for_decl_and_key(properties: &SalsaPropertyIndexSummary, decl_id: u32, key: &SalsaPropertyKeySummary) -> (r: Vec<SalsaPropertySummary>)
    requires
        spec_expansions_fit(props_view(properties.properties@).filter(|p: PropertyView| owned_by_decl(p, decl_id)), key@),
    ensures
        props_view(r@) == spec_owner_key_properties(props_view(properties.properties@).filter(|p: PropertyView| owned_by_decl(p, decl_id)), key@),
{
    let index = build_property_query_index(properties);
    collect_properties_for_decl_and_key_in_index(&index, decl_id, key)
}

/// The properties of the member with target handle `member_target` that answer `key`.
pub fn collect_properties_for_member_and_key(properties: &SalsaPropertyIndexSummary, member_target: u32, key: &SalsaPropertyKeySummary) -> (r: Vec<SalsaPropertySummary>)
    requires
        spec_expansions_fit(props_view(properties.properties@).filter(|p: PropertyView| owned_by_member(p, member_target)), key@),
    ensures
        props_view(r@) == spec_owner_key_properties(props_view(properties.properties@).filter(|p: PropertyView| owned_by_member(p, member_target)), key@),
{
    let index = build_property_query_index(properties);
    collect_properties_for_member_and_key_in_index(&index, member_target, key)
}

/// The properties of the type `owner_type` that answer `key`.
pub fn collect_properties_for_type_and_key(properties: &SalsaPropertyIndexSummary, owner_type: &str, key: &SalsaPropertyKeySummary) -> (r: Vec<SalsaPropertySummary>)
    requires
        spec_expansions_fit(props_view(properties.properties@).filter(|p: PropertyView| owned_by_type(p, owner_type@)), key@),
    ensures
        props_view(r@) == spec_owner_key_properties(props_view(properties.properties@).filter(|p: PropertyView| owned_by_type(p, owner_type@)), key@),
{
    let index = build_property_query_index(properties);
    collect_properties_for_type_and_key_in_index(&index, owner_type, key)
}

} // verus!
