//! Documentation tags (`---@...` comments), the per-owner properties that they
//! add up to, and the queries over both.
use vstd::prelude::*;

use crate::lexical::lemma_filter_take_step;
use crate::uses::clone_opt_string;

verus! {

/// The kind of syntax that a documentation comment is attached to.
#[derive(Clone, Copy, Debug, PartialEq, Eq, Structural)]
pub enum SalsaDocOwnerKindSummary {
    NoOwner,
    AssignStat,
    LocalStat,
    FuncStat,
    LocalFuncStat,
    TableField,
    Closure,
    CallExprStat,
    ReturnStat,
    Other,
}

/// What a documentation comment is attached to: the kind of syntax and where it
/// starts, or no position for a comment that documents the file.
#[derive(Clone, Copy, Debug, PartialEq, Eq, Structural)]
pub struct SalsaDocOwnerSummary {
    pub kind: SalsaDocOwnerKindSummary,
    pub syntax_offset: Option<u32>,
}

#[derive(Clone, Copy, Debug, PartialEq, Eq, Structural)]
pub enum SalsaDocTagKindSummary {
    Class,
    Enum,
    Alias,
    Field,
    Type,
    Param,
    Return,
    ReturnOverload,
    Generic,
    Overload,
    Cast,
    Operator,
    Visibility,
    Source,
    Module,
    Namespace,
    Meta,
    Language,
    Deprecated,
    Nodiscard,
    Version,
    Using,
    See,
    Diagnostic,
    AttributeUse,
    Schema,
    Async,
    Readonly,
    Other,
}

#[derive(Clone, Copy, Debug, PartialEq, Eq, Structural)]
pub enum SalsaDocVisibilityKindSummary {
    Public,
    Protected,
    Private,
    Package,
    Internal,
}

#[derive(Clone, Copy, Debug, PartialEq, Eq, Structural)]
pub enum SalsaDocVersionComparatorSummary {
    Eq,
    Gt,
    Ge,
    Lt,
    Le,
}

/// One condition of a `@version` tag: a comparison with a named version.
#[derive(Clone, Debug, PartialEq, Eq)]
pub struct SalsaDocVersionConditionSummary {
    pub comparator: SalsaDocVersionComparatorSummary,
    pub version: String,
}

/// One documentation tag: where it stands, its kind, its owner, and what it
/// was written with (a name, free text, a visibility, version conditions, or a
/// list of items).
#[derive(Clone, Debug, PartialEq, Eq)]
pub struct SalsaDocTagSummary {
    pub syntax_offset: u32,
    pub kind: SalsaDocTagKindSummary,
    pub owner: SalsaDocOwnerSummary,
    pub name: Option<String>,
    pub content: Option<String>,
    pub visibility: Option<SalsaDocVisibilityKindSummary>,
    pub version_conds: Vec<SalsaDocVersionConditionSummary>,
    pub items: Vec<String>,
}

/// The documentation of a file: its tags in source order, and the type,
/// parameter and type definition tags that type information reads.
#[derive(Clone, Debug, PartialEq, Eq)]
pub struct SalsaDocSummary {
    pub tags: Vec<SalsaDocTagSummary>,
    pub type_tags: Vec<SalsaDocTypeTagSummary>,
    pub params: Vec<SalsaDocParamSummary>,
    pub type_defs: Vec<SalsaDocTypeDefSummary>,
}

/// A `---@type` tag: what it is attached to and the doc types it names.
#[derive(Clone, Debug, PartialEq, Eq)]
pub struct SalsaDocTypeTagSummary {
    pub owner: SalsaDocOwnerSummary,
    pub type_offsets: Vec<u32>,
}

/// A `---@param` tag: where it is written, what it is attached to, the
/// parameter it documents, its doc type if it could be read, and whether it is
/// marked optional (`name?`) or documents `...`.
#[derive(Clone, Debug, PartialEq, Eq)]
pub struct SalsaDocParamSummary {
    pub syntax_offset: u32,
    pub owner: SalsaDocOwnerSummary,
    pub name: String,
    pub type_offset: Option<u32>,
    pub is_nullable: bool,
    pub is_vararg: bool,
}

#[derive(Clone, Copy, Debug, PartialEq, Eq, Structural)]
pub enum SalsaDocTypeDefKindSummary {
    Class,
    Enum,
    Alias,
}

/// A type definition tag (`---@class`, `---@enum`, `---@alias`): what it is
/// attached to, the name it defines and its kind.
#[derive(Clone, Debug, PartialEq, Eq)]
pub struct SalsaDocTypeDefSummary {
    pub owner: SalsaDocOwnerSummary,
    pub name: String,
    pub kind: SalsaDocTypeDefKindSummary,
}


#[derive(Clone, Debug, PartialEq, Eq)]
pub struct SalsaDocTagNameContentSummary {
    pub name: String,
    pub content: Option<String>,
}

#[derive(Clone, Copy, Debug, PartialEq, Eq, Structural)]
pub enum SalsaDocDiagnosticActionKindSummary {
    Disable,
    DisableNextLine,
    DisableLine,
    Enable,
}

/// What a `@diagnostic` tag does to one diagnostic code (or, with no code, to
/// all of them).
#[derive(Clone, Debug, PartialEq, Eq)]
pub struct SalsaDocDiagnosticActionSummary {
    pub syntax_offset: u32,
    pub kind: SalsaDocDiagnosticActionKindSummary,
    pub code_name: Option<String>,
}

#[derive(Clone, Debug, PartialEq, Eq)]
pub enum SalsaDocTagPropertyEntrySummary {
    Visibility(SalsaDocVisibilityKindSummary),
    Source(String),
    Module(String),
    Namespace(String),
    Meta(String),
    Language(String),
    Deprecated(Option<String>),
    Nodiscard(Option<String>),
    Version(Vec<SalsaDocVersionConditionSummary>),
    Using(String),
    See(String),
    Diagnostic(Vec<SalsaDocDiagnosticActionSummary>),
    CustomTag(Box<SalsaDocTagNameContentSummary>),
    AttributeUse(String),
    Schema(String),
    Async,
    Readonly,
}

/// What the property-like tags of one owner say, in the order of the tags.
#[derive(Clone, Debug, PartialEq, Eq)]
pub struct SalsaDocTagPropertySummary {
    pub owner: SalsaDocOwnerSummary,
    pub entries: Vec<SalsaDocTagPropertyEntrySummary>,
}

pub struct TagView {
    pub syntax_offset: u32,
    pub kind: SalsaDocTagKindSummary,
    pub owner: SalsaDocOwnerSummary,
    pub name: Option<String>,
    pub content: Option<String>,
    pub visibility: Option<SalsaDocVisibilityKindSummary>,
    pub version_conds: Seq<SalsaDocVersionConditionSummary>,
    pub items: Seq<String>,
}

pub enum EntryView {
    Visibility(SalsaDocVisibilityKindSummary),
    Source(String),
    Module(String),
    Namespace(String),
    Meta(String),
    Language(String),
    Deprecated(Option<String>),
    Nodiscard(Option<String>),
    Version(Seq<SalsaDocVersionConditionSummary>),
    Using(String),
    See(String),
    Diagnostic(Seq<SalsaDocDiagnosticActionSummary>),
    CustomTag(SalsaDocTagNameContentSummary),
    AttributeUse(String),
    Schema(String),
    Async,
    Readonly,
}

pub struct DocPropertyView {
    pub owner: SalsaDocOwnerSummary,
    pub entries: Seq<EntryView>,
}

impl View for SalsaDocTagSummary {
    type V = TagView;

    open spec fn view(&self) -> TagView {
        TagView {
            syntax_offset: self.syntax_offset,
            kind: self.kind,
            owner: self.owner,
            name: self.name,
            content: self.content,
            visibility: self.visibility,
            version_conds: self.version_conds@,
            items: self.items@,
        }
    }
}

impl View for SalsaDocTagPropertyEntrySummary {
    type V = EntryView;

    open spec fn view(&self) -> EntryView {
        match self {
            SalsaDocTagPropertyEntrySummary::Visibility(v) => EntryView::Visibility(*v),
            SalsaDocTagPropertyEntrySummary::Source(s) => EntryView::Source(*s),
            SalsaDocTagPropertyEntrySummary::Module(s) => EntryView::Module(*s),
            SalsaDocTagPropertyEntrySummary::Namespace(s) => EntryView::Namespace(*s),
            SalsaDocTagPropertyEntrySummary::Meta(s) => EntryView::Meta(*s),
            SalsaDocTagPropertyEntrySummary::Language(s) => EntryView::Language(*s),
            SalsaDocTagPropertyEntrySummary::Deprecated(m) => EntryView::Deprecated(*m),
            SalsaDocTagPropertyEntrySummary::Nodiscard(m) => EntryView::Nodiscard(*m),
            SalsaDocTagPropertyEntrySummary::Version(v) => EntryView::Version(v@),
            SalsaDocTagPropertyEntrySummary::Using(s) => EntryView::Using(*s),
            SalsaDocTagPropertyEntrySummary::See(s) => EntryView::See(*s),
            SalsaDocTagPropertyEntrySummary::Diagnostic(d) => EntryView::Diagnostic(d@),
            SalsaDocTagPropertyEntrySummary::CustomTag(t) => EntryView::CustomTag(**t),
            SalsaDocTagPropertyEntrySummary::AttributeUse(s) => EntryView::AttributeUse(*s),
            SalsaDocTagPropertyEntrySummary::Schema(s) => EntryView::Schema(*s),
            SalsaDocTagPropertyEntrySummary::Async => EntryView::Async,
            SalsaDocTagPropertyEntrySummary::Readonly => EntryView::Readonly,
        }
    }
}

pub open spec fn entries_view(s: Seq<SalsaDocTagPropertyEntrySummary>) -> Seq<EntryView> {
    s.map_values(|e: SalsaDocTagPropertyEntrySummary| e@)
}

impl View for SalsaDocTagPropertySummary {
    type V = DocPropertyView;

    open spec fn view(&self) -> DocPropertyView {
        DocPropertyView { owner: self.owner, entries: entries_view(self.entries@) }
    }
}

pub open spec fn tags_view(s: Seq<SalsaDocTagSummary>) -> Seq<TagView> {
    s.map_values(|t: SalsaDocTagSummary| t@)
}

pub open spec fn doc_props_view(s: Seq<SalsaDocTagPropertySummary>) -> Seq<DocPropertyView> {
    s.map_values(|p: SalsaDocTagPropertySummary| p@)
}

/// The tag kinds that add to their owner's properties.
pub open spec fn spec_is_property_like_kind(kind: SalsaDocTagKindSummary) -> bool {
    match kind {
        SalsaDocTagKindSummary::AttributeUse
        | SalsaDocTagKindSummary::Module
        | SalsaDocTagKindSummary::See
        | SalsaDocTagKindSummary::Diagnostic
        | SalsaDocTagKindSummary::Deprecated
        | SalsaDocTagKindSummary::Version
        | SalsaDocTagKindSummary::Source
        | SalsaDocTagKindSummary::Schema
        | SalsaDocTagKindSummary::Other
        | SalsaDocTagKindSummary::Namespace
        | SalsaDocTagKindSummary::Using
        | SalsaDocTagKindSummary::Meta
        | SalsaDocTagKindSummary::Nodiscard
        | SalsaDocTagKindSummary::Readonly
        | SalsaDocTagKindSummary::Async
        | SalsaDocTagKindSummary::Visibility
        | SalsaDocTagKindSummary::Language => true,
        _ => false,
    }
}

/// The action that a `@diagnostic` tag's name stands for.
pub open spec fn spec_action_kind_from_name(name: Seq<char>) -> Option<SalsaDocDiagnosticActionKindSummary> {
    if name == "disable"@ {
        Some(SalsaDocDiagnosticActionKindSummary::Disable)
    } else if name == "disable-next-line"@ {
        Some(SalsaDocDiagnosticActionKindSummary::DisableNextLine)
    } else if name == "disable-line"@ {
        Some(SalsaDocDiagnosticActionKindSummary::DisableLine)
    } else if name == "enable"@ {
        Some(SalsaDocDiagnosticActionKindSummary::Enable)
    } else {
        None
    }
}

/// One action per code, in the order of the codes.
pub open spec fn spec_code_actions(
    codes: Seq<String>,
    syntax_offset: u32,
    kind: SalsaDocDiagnosticActionKindSummary,
) -> Seq<SalsaDocDiagnosticActionSummary>
    decreases codes.len(),
{
    if codes.len() == 0 {
        Seq::empty()
    } else {
        spec_code_actions(codes.drop_last(), syntax_offset, kind).push(
            SalsaDocDiagnosticActionSummary { syntax_offset, kind, code_name: Some(codes.last()) },
        )
    }
}

/// The actions of a `@diagnostic` tag: none where its name is no action; for
/// `enable`, one per listed code; for the others, one per listed code, or one
/// for every code where none is listed.
pub open spec fn spec_diagnostic_actions(tag: TagView) -> Seq<SalsaDocDiagnosticActionSummary> {
    let kind = match tag.name {
        Some(n) => spec_action_kind_from_name(n@),
        None => None,
    };
    match kind {
        None => Seq::empty(),
        Some(k) => if k == SalsaDocDiagnosticActionKindSummary::Enable || tag.items.len() > 0 {
            spec_code_actions(tag.items, tag.syntax_offset, k)
        } else {
            seq![SalsaDocDiagnosticActionSummary { syntax_offset: tag.syntax_offset, kind: k, code_name: None }]
        },
    }
}

/// One `AttributeUse` entry per item, in order.
pub open spec fn spec_attribute_entries(items: Seq<String>) -> Seq<EntryView>
    decreases items.len(),
{
    if items.len() == 0 {
        Seq::empty()
    } else {
        spec_attribute_entries(items.drop_last()).push(EntryView::AttributeUse(items.last()))
    }
}

pub open spec fn one_if_some(v: Option<String>, wrap: spec_fn(String) -> EntryView) -> Seq<EntryView> {
    match v {
        Some(s) => seq![wrap(s)],
        None => Seq::empty(),
    }
}

/// The entries that one tag adds to its owner's property.
pub open spec fn spec_tag_entries(tag: TagView) -> Seq<EntryView> {
    match tag.kind {
        SalsaDocTagKindSummary::Visibility => match tag.visibility {
            Some(v) => seq![EntryView::Visibility(v)],
            None => Seq::empty(),
        },
        SalsaDocTagKindSummary::Source => one_if_some(tag.content, |s: String| EntryView::Source(s)),
        SalsaDocTagKindSummary::Module => one_if_some(tag.name, |s: String| EntryView::Module(s)),
        SalsaDocTagKindSummary::Namespace => one_if_some(tag.name, |s: String| EntryView::Namespace(s)),
        SalsaDocTagKindSummary::Meta => one_if_some(tag.name, |s: String| EntryView::Meta(s)),
        SalsaDocTagKindSummary::Language => one_if_some(tag.name, |s: String| EntryView::Language(s)),
        SalsaDocTagKindSummary::Deprecated => seq![EntryView::Deprecated(tag.content)],
        SalsaDocTagKindSummary::Nodiscard => seq![EntryView::Nodiscard(tag.content)],
        SalsaDocTagKindSummary::Version => seq![EntryView::Version(tag.version_conds)],
        SalsaDocTagKindSummary::Using => one_if_some(tag.name, |s: String| EntryView::Using(s)),
        SalsaDocTagKindSummary::See => one_if_some(tag.content, |s: String| EntryView::See(s)),
        SalsaDocTagKindSummary::Diagnostic => {
            let actions = spec_diagnostic_actions(tag);
            if actions.len() > 0 {
                seq![EntryView::Diagnostic(actions)]
            } else {
                Seq::empty()
            }
        },
        SalsaDocTagKindSummary::Other => match tag.name {
            Some(n) => seq![EntryView::CustomTag(SalsaDocTagNameContentSummary { name: n, content: tag.content })],
            None => Seq::empty(),
        },
        SalsaDocTagKindSummary::AttributeUse => spec_attribute_entries(tag.items),
        SalsaDocTagKindSummary::Schema => one_if_some(tag.content, |s: String| EntryView::Schema(s)),
        SalsaDocTagKindSummary::Async => seq![EntryView::Async],
        SalsaDocTagKindSummary::Readonly => seq![EntryView::Readonly],
        _ => Seq::empty(),
    }
}

/// Whether a tag of this kind adds to its owner's properties.
pub fn is_property_like_tag(kind: &SalsaDocTagKindSummary) -> (r: bool)
    ensures
        r == spec_is_property_like_kind(*kind),
{
    match kind {
        SalsaDocTagKindSummary::AttributeUse
        | SalsaDocTagKindSummary::Module
        | SalsaDocTagKindSummary::See
        | SalsaDocTagKindSummary::Diagnostic
        | SalsaDocTagKindSummary::Deprecated
        | SalsaDocTagKindSummary::Version
        | SalsaDocTagKindSummary::Source
        | SalsaDocTagKindSummary::Schema
        | SalsaDocTagKindSummary::Other
        | SalsaDocTagKindSummary::Namespace
        | SalsaDocTagKindSummary::Using
        | SalsaDocTagKindSummary::Meta
        | SalsaDocTagKindSummary::Nodiscard
        | SalsaDocTagKindSummary::Readonly
        | SalsaDocTagKindSummary::Async
        | SalsaDocTagKindSummary::Visibility
        | SalsaDocTagKindSummary::Language => true,
        _ => false,
    }
}

/// The action that a `@diagnostic` tag's name stands for, if any.
pub fn diagnostic_action_kind_from_name(name: &str) -> (r: Option<SalsaDocDiagnosticActionKindSummary>)
    ensures
        r == spec_action_kind_from_name(name@),
{
    let name = name.to_owned();
    if name == "disable".to_owned() {
        Some(SalsaDocDiagnosticActionKindSummary::Disable)
    } else if name == "disable-next-line".to_owned() {
        Some(SalsaDocDiagnosticActionKindSummary::DisableNextLine)
    } else if name == "disable-line".to_owned() {
        Some(SalsaDocDiagnosticActionKindSummary::DisableLine)
    } else if name == "enable".to_owned() {
        Some(SalsaDocDiagnosticActionKindSummary::Enable)
    } else {
        None
    }
}

fn code_actions(
    codes: &Vec<String>,
    syntax_offset: u32,
    kind: SalsaDocDiagnosticActionKindSummary,
) -> (r: Vec<SalsaDocDiagnosticActionSummary>)
    ensures
        r@ == spec_code_actions(codes@, syntax_offset, kind),
{
    let mut r: Vec<SalsaDocDiagnosticActionSummary> = Vec::new();
    let mut i: usize = 0;
    while i < codes.len()
        invariant
            i <= codes@.len(),
            r@ == spec_code_actions(codes@.take(i as int), syntax_offset, kind),
        decreases codes@.len() - i,
    {
        assert(codes@.take(i + 1).drop_last() =~= codes@.take(i as int));
        r.push(SalsaDocDiagnosticActionSummary { syntax_offset, kind, code_name: Some(codes[i].clone()) });
        i = i + 1;
    }
    assert(codes@.take(i as int) =~= codes@);
    r
}

/// The actions that a `@diagnostic` tag stands for.
pub fn build_diagnostic_summaries(tag: &SalsaDocTagSummary) -> (r: Vec<SalsaDocDiagnosticActionSummary>)
    ensures
        r@ == spec_diagnostic_actions(tag@),
{
    let kind = match &tag.name {
        Some(name) => diagnostic_action_kind_from_name(name.as_str()),
        None => None,
    };
    match kind {
        None => Vec::new(),
        Some(k) => {
            if matches!(k, SalsaDocDiagnosticActionKindSummary::Enable) || tag.items.len() > 0 {
                code_actions(&tag.items, tag.syntax_offset, k)
            } else {
                let mut r: Vec<SalsaDocDiagnosticActionSummary> = Vec::new();
                r.push(SalsaDocDiagnosticActionSummary { syntax_offset: tag.syntax_offset, kind: k, code_name: None });
                assert(r@ =~= seq![SalsaDocDiagnosticActionSummary { syntax_offset: tag.syntax_offset, kind: k, code_name: None }]);
                r
            }
        },
    }
}

fn push_entry(entries: &mut Vec<SalsaDocTagPropertyEntrySummary>, e: SalsaDocTagPropertyEntrySummary)
    ensures
        entries_view(final(entries)@) == entries_view(old(entries)@).push(e@),
{
    entries.push(e);
    assert(entries_view(entries@) =~= entries_view(old(entries)@).push(e@));
}

fn clone_version_conds(v: &Vec<SalsaDocVersionConditionSummary>) -> (r: Vec<SalsaDocVersionConditionSummary>)
    ensures
        r@ == v@,
{
    let mut r: Vec<SalsaDocVersionConditionSummary> = Vec::new();
    let mut i: usize = 0;
    while i < v.len()
        invariant
            i <= v@.len(),
            r@ == v@.take(i as int),
        decreases v@.len() - i,
    {
        let c = &v[i];
        r.push(SalsaDocVersionConditionSummary { comparator: c.comparator, version: c.version.clone() });
        assert(r@ =~= v@.take(i + 1));
        i = i + 1;
    }
    assert(v@.take(i as int) =~= v@);
    r
}

/// Appends to `entries` what `tag` adds to its owner's property.
fn push_tag_entries(tag: &SalsaDocTagSummary, entries: &mut Vec<SalsaDocTagPropertyEntrySummary>)
    ensures
        entries_view(final(entries)@) == entries_view(old(entries)@) + spec_tag_entries(tag@),
{
    let ghost before = entries_view(entries@);
    match tag.kind {
        SalsaDocTagKindSummary::Visibility => {
            if let Some(v) = tag.visibility {
                push_entry(entries, SalsaDocTagPropertyEntrySummary::Visibility(v));
            }
        },
        SalsaDocTagKindSummary::Source => {
            if let Some(c) = &tag.content {
                push_entry(entries, SalsaDocTagPropertyEntrySummary::Source(c.clone()));
            }
        },
        SalsaDocTagKindSummary::Module => {
            if let Some(n) = &tag.name {
                push_entry(entries, SalsaDocTagPropertyEntrySummary::Module(n.clone()));
            }
        },
        SalsaDocTagKindSummary::Namespace => {
            if let Some(n) = &tag.name {
                push_entry(entries, SalsaDocTagPropertyEntrySummary::Namespace(n.clone()));
            }
        },
        SalsaDocTagKindSummary::Meta => {
            if let Some(n) = &tag.name {
                push_entry(entries, SalsaDocTagPropertyEntrySummary::Meta(n.clone()));
            }
        },
        SalsaDocTagKindSummary::Language => {
            if let Some(n) = &tag.name {
                push_entry(entries, SalsaDocTagPropertyEntrySummary::Language(n.clone()));
            }
        },
        SalsaDocTagKindSummary::Deprecated => {
            push_entry(entries, SalsaDocTagPropertyEntrySummary::Deprecated(clone_opt_string(&tag.content)));
        },
        SalsaDocTagKindSummary::Nodiscard => {
            push_entry(entries, SalsaDocTagPropertyEntrySummary::Nodiscard(clone_opt_string(&tag.content)));
        },
        SalsaDocTagKindSummary::Version => {
            push_entry(entries, SalsaDocTagPropertyEntrySummary::Version(clone_version_conds(&tag.version_conds)));
        },
        SalsaDocTagKindSummary::Using => {
            if let Some(n) = &tag.name {
                push_entry(entries, SalsaDocTagPropertyEntrySummary::Using(n.clone()));
            }
        },
        SalsaDocTagKindSummary::See => {
            if let Some(c) = &tag.content {
                push_entry(entries, SalsaDocTagPropertyEntrySummary::See(c.clone()));
            }
        },
        SalsaDocTagKindSummary::Diagnostic => {
            let actions = build_diagnostic_summaries(tag);
            if actions.len() > 0 {
                push_entry(entries, SalsaDocTagPropertyEntrySummary::Diagnostic(actions));
            }
        },
        SalsaDocTagKindSummary::Other => {
            if let Some(n) = &tag.name {
                let custom = SalsaDocTagNameContentSummary { name: n.clone(), content: clone_opt_string(&tag.content) };
                push_entry(entries, SalsaDocTagPropertyEntrySummary::CustomTag(Box::new(custom)));
            }
        },
        SalsaDocTagKindSummary::AttributeUse => {
            let mut i: usize = 0;
            while i < tag.items.len()
                invariant
                    i <= tag.items@.len(),
                    entries_view(entries@) == before + spec_attribute_entries(tag.items@.take(i as int)),
                decreases tag.items@.len() - i,
            {
                assert(tag.items@.take(i + 1).drop_last() =~= tag.items@.take(i as int));
                push_entry(entries, SalsaDocTagPropertyEntrySummary::AttributeUse(tag.items[i].clone()));
                assert(before + spec_attribute_entries(tag.items@.take(i + 1)) =~= before
                    + spec_attribute_entries(tag.items@.take(i as int)).push(
                    EntryView::AttributeUse(tag.items@[i as int]),
                ));
                i = i + 1;
            }
            assert(tag.items@.take(i as int) =~= tag.items@);
        },
        SalsaDocTagKindSummary::Schema => {
            if let Some(c) = &tag.content {
                push_entry(entries, SalsaDocTagPropertyEntrySummary::Schema(c.clone()));
            }
        },
        SalsaDocTagKindSummary::Async => {
            push_entry(entries, SalsaDocTagPropertyEntrySummary::Async);
        },
        SalsaDocTagKindSummary::Readonly => {
            push_entry(entries, SalsaDocTagPropertyEntrySummary::Readonly);
        },
        _ => {},
    }
    assert(entries_view(entries@) =~= before + spec_tag_entries(tag@));
}

pub open spec fn spec_owner_kind_rank(kind: SalsaDocOwnerKindSummary) -> int {
    match kind {
        SalsaDocOwnerKindSummary::NoOwner => 0,
        SalsaDocOwnerKindSummary::AssignStat => 1,
        SalsaDocOwnerKindSummary::LocalStat => 2,
        SalsaDocOwnerKindSummary::FuncStat => 3,
        SalsaDocOwnerKindSummary::LocalFuncStat => 4,
        SalsaDocOwnerKindSummary::TableField => 5,
        SalsaDocOwnerKindSummary::Closure => 6,
        SalsaDocOwnerKindSummary::CallExprStat => 7,
        SalsaDocOwnerKindSummary::ReturnStat => 8,
        SalsaDocOwnerKindSummary::Other => 9,
    }
}

/// Owners are ordered by kind, then by position, a missing position first.
pub open spec fn spec_owner_lt(a: SalsaDocOwnerSummary, b: SalsaDocOwnerSummary) -> bool {
    ||| spec_owner_kind_rank(a.kind) < spec_owner_kind_rank(b.kind)
    ||| (a.kind == b.kind && match (a.syntax_offset, b.syntax_offset) {
        (None, Some(_)) => true,
        (Some(x), Some(y)) => x < y,
        _ => false,
    })
}

/// `a` may stand before `b`: its owner orders first, or the owner is the same
/// and `a` is not written after `b`.
pub open spec fn spec_tag_key_le(a: TagView, b: TagView) -> bool {
    ||| spec_owner_lt(a.owner, b.owner)
    ||| (a.owner == b.owner && a.syntax_offset <= b.syntax_offset)
}

/// Inserts `x` into `t` after every tag that may stand before it.
pub open spec fn insert_tag_in_order(t: Seq<TagView>, x: TagView) -> Seq<TagView>
    decreases t.len(),
{
    if t.len() == 0 {
        seq![x]
    } else if spec_tag_key_le(t.last(), x) {
        t.push(x)
    } else {
        insert_tag_in_order(t.drop_last(), x).push(t.last())
    }
}

/// Sorts tags by owner and position, keeping the order of tags with equal keys.
pub open spec fn sort_tags_in_order(s: Seq<TagView>) -> Seq<TagView>
    decreases s.len(),
{
    if s.len() == 0 {
        s
    } else {
        insert_tag_in_order(sort_tags_in_order(s.drop_last()), s.last())
    }
}

pub open spec fn property_like() -> spec_fn(TagView) -> bool {
    |t: TagView| spec_is_property_like_kind(t.kind)
}

/// Walks the sorted tags: a tag whose owner differs from the last property's
/// opens a new property, and each tag appends its entries to the last one.
pub open spec fn spec_group_properties(s: Seq<TagView>) -> Seq<DocPropertyView>
    decreases s.len(),
{
    if s.len() == 0 {
        Seq::empty()
    } else {
        let prev = spec_group_properties(s.drop_last());
        let t = s.last();
        let opened = if prev.len() == 0 || prev.last().owner != t.owner {
            prev.push(DocPropertyView { owner: t.owner, entries: Seq::empty() })
        } else {
            prev
        };
        let last = opened.last();
        opened.update(
            opened.len() - 1,
            DocPropertyView { owner: last.owner, entries: last.entries + spec_tag_entries(t) },
        )
    }
}

/// The properties that a file's tags add up to: one per owner of a
/// property-like tag, in the order of owners, each with the entries of its tags
/// in source order.
pub open spec fn spec_doc_tag_properties(tags: Seq<TagView>) -> Seq<DocPropertyView> {
    spec_group_properties(sort_tags_in_order(tags.filter(property_like())))
}

pub proof fn lemma_insert_tag_in_order_at(t: Seq<TagView>, x: TagView, p: int)
    requires
        0 <= p <= t.len(),
        forall|j: int| p <= j < t.len() ==> !spec_tag_key_le(#[trigger] t[j], x),
        p == 0 || spec_tag_key_le(t[p - 1], x),
    ensures
        insert_tag_in_order(t, x) == t.insert(p, x),
    decreases t.len(),
{
    if t.len() == 0 {
        assert(t.insert(p, x) =~= seq![x]);
    } else if spec_tag_key_le(t.last(), x) {
        assert(p == t.len());
        assert(t.insert(p, x) =~= t.push(x));
    } else {
        lemma_insert_tag_in_order_at(t.drop_last(), x, p);
        assert(t.drop_last().insert(p, x).push(t.last()) =~= t.insert(p, x));
    }
}

fn owner_kind_rank(kind: SalsaDocOwnerKindSummary) -> (r: u8)
    ensures
        r == spec_owner_kind_rank(kind),
{
    match kind {
        SalsaDocOwnerKindSummary::NoOwner => 0,
        SalsaDocOwnerKindSummary::AssignStat => 1,
        SalsaDocOwnerKindSummary::LocalStat => 2,
        SalsaDocOwnerKindSummary::FuncStat => 3,
        SalsaDocOwnerKindSummary::LocalFuncStat => 4,
        SalsaDocOwnerKindSummary::TableField => 5,
        SalsaDocOwnerKindSummary::Closure => 6,
        SalsaDocOwnerKindSummary::CallExprStat => 7,
        SalsaDocOwnerKindSummary::ReturnStat => 8,
        SalsaDocOwnerKindSummary::Other => 9,
    }
}

fn owner_lt(a: &SalsaDocOwnerSummary, b: &SalsaDocOwnerSummary) -> (r: bool)
    ensures
        r == spec_owner_lt(*a, *b),
{
    let ra = owner_kind_rank(a.kind);
    let rb = owner_kind_rank(b.kind);
    if ra < rb {
        return true;
    }
    if ra != rb {
        return false;
    }
    match (a.syntax_offset, b.syntax_offset) {
        (None, Some(_)) => true,
        (Some(x), Some(y)) => x < y,
        _ => false,
    }
}

fn tag_key_le(a: &SalsaDocTagSummary, b: &SalsaDocTagSummary) -> (r: bool)
    ensures
        r == spec_tag_key_le(a@, b@),
{
    owner_lt(&a.owner, &b.owner) || (a.owner == b.owner && a.syntax_offset <= b.syntax_offset)
}

/// Gathers the property-like tags by owner: sorts them by owner and position
/// and folds each owner's tags into one property.
pub fn build_doc_tag_properties_from_tags(tags: &Vec<SalsaDocTagSummary>) -> (r: Vec<SalsaDocTagPropertySummary>)
    ensures
        doc_props_view(r@) == spec_doc_tag_properties(tags_view(tags@)),
{
    let ghost tv = tags_view(tags@);
    let mut order: Vec<usize> = Vec::new();
    let ghost mut sorted: Seq<TagView> = Seq::empty();
    let mut i: usize = 0;
    assert(tv.take(0).filter(property_like()) =~= Seq::<TagView>::empty());
    while i < tags.len()
        invariant
            tv == tags_view(tags@),
            i <= tags@.len(),
            sorted == sort_tags_in_order(tv.take(i as int).filter(property_like())),
            order@.len() == sorted.len(),
            forall|j: int| 0 <= j < order@.len() ==> (#[trigger] order@[j] as int) < tags@.len(),
            forall|j: int| 0 <= j < order@.len() ==> #[trigger] sorted[j] == tv[order@[j] as int],
        decreases tags@.len() - i,
    {
        proof { lemma_filter_take_step(tv, property_like(), i as int); }
        assert(tv[i as int] == tags@[i as int]@);
        if is_property_like_tag(&tags[i].kind) {
            let ghost filtered = tv.take(i as int).filter(property_like());
            assert(filtered.push(tv[i as int]).drop_last() =~= filtered);
            let mut p: usize = order.len();
            while p > 0 && !tag_key_le(&tags[order[p - 1]], &tags[i])
                invariant
                    tv == tags_view(tags@),
                    i < tags@.len(),
                    p <= order@.len(),
                    order@.len() == sorted.len(),
                    forall|j: int| 0 <= j < order@.len() ==> (#[trigger] order@[j] as int) < tags@.len(),
                    forall|j: int| 0 <= j < order@.len() ==> #[trigger] sorted[j] == tv[order@[j] as int],
                    forall|j: int| p <= j < sorted.len() ==> !spec_tag_key_le(#[trigger] sorted[j], tv[i as int]),
                decreases p,
            {
                assert(sorted[p - 1] == tv[order@[p - 1] as int]);
                p = p - 1;
            }
            proof {
                if p > 0 {
                    assert(sorted[p - 1] == tv[order@[p - 1] as int]);
                }
                lemma_insert_tag_in_order_at(sorted, tv[i as int], p as int);
            }
            let ghost old_order = order@;
            let ghost old_sorted = sorted;
            order.insert(p, i);
            proof {
                sorted = sorted.insert(p as int, tv[i as int]);
                assert forall|k: int| 0 <= k < order@.len() implies (order@[k] as int) < tags@.len()
                    && sorted[k] == tv[order@[k] as int] by {
                    if k < p {
                        assert(order@[k] == old_order[k]);
                        assert(sorted[k] == old_sorted[k]);
                    } else if k > p {
                        assert(order@[k] == old_order[k - 1]);
                        assert(sorted[k] == old_sorted[k - 1]);
                    }
                }
            }
        }
        i = i + 1;
    }
    assert(tv.take(i as int) =~= tv);

    let mut properties: Vec<SalsaDocTagPropertySummary> = Vec::new();
    let mut k: usize = 0;
    while k < order.len()
        invariant
            tv == tags_view(tags@),
            k <= order@.len(),
            order@.len() == sorted.len(),
            forall|j: int| 0 <= j < order@.len() ==> (#[trigger] order@[j] as int) < tags@.len(),
            forall|j: int| 0 <= j < order@.len() ==> #[trigger] sorted[j] == tv[order@[j] as int],
            doc_props_view(properties@) == spec_group_properties(sorted.take(k as int)),
        decreases order@.len() - k,
    {
        let ghost next = sorted.take(k + 1);
        assert(next.drop_last() =~= sorted.take(k as int));
        assert(next.last() == sorted[k as int]);
        let tag = &tags[order[k]];
        assert(tag@ == sorted[k as int]);
        let n = properties.len();
        if n == 0 || properties[n - 1].owner != tag.owner {
            let ghost before = doc_props_view(properties@);
            let fresh = SalsaDocTagPropertySummary { owner: tag.owner, entries: Vec::new() };
            assert(fresh@ == DocPropertyView { owner: tag.owner, entries: Seq::empty() }) by {
                assert(entries_view(fresh.entries@) =~= Seq::<EntryView>::empty());
            }
            properties.push(fresh);
            assert(doc_props_view(properties@) =~= before.push(fresh@));
        }
        let ghost opened = doc_props_view(properties@);
        let mut last = properties.pop().unwrap();
        assert(last@ == opened.last());
        push_tag_entries(tag, &mut last.entries);
        properties.push(last);
        assert(doc_props_view(properties@) =~= opened.update(
            opened.len() - 1,
            DocPropertyView { owner: opened.last().owner, entries: opened.last().entries + spec_tag_entries(tag@) },
        ));
        k = k + 1;
    }
    assert(sorted.take(k as int) =~= sorted);
    properties
}

/// The tags and properties of a file, queried by position, kind and owner.
#[derive(Clone, Debug, PartialEq, Eq)]
pub struct SalsaDocTagQueryIndex {
    pub tags: Vec<SalsaDocTagSummary>,
    pub properties: Vec<SalsaDocTagPropertySummary>,
}

pub(crate) fn clone_strings(v: &Vec<String>) -> (r: Vec<String>)
    ensures
        r@ == v@,
{
    let r = v.clone();
    assert(r@ =~= v@);
    r
}

fn clone_tag(t: &SalsaDocTagSummary) -> (r: SalsaDocTagSummary)
    ensures
        r@ == t@,
{
    SalsaDocTagSummary {
        syntax_offset: t.syntax_offset,
        kind: t.kind,
        owner: t.owner,
        name: clone_opt_string(&t.name),
        content: clone_opt_string(&t.content),
        visibility: t.visibility,
        version_conds: clone_version_conds(&t.version_conds),
        items: clone_strings(&t.items),
    }
}

fn clone_tags(v: &Vec<SalsaDocTagSummary>) -> (r: Vec<SalsaDocTagSummary>)
    ensures
        tags_view(r@) == tags_view(v@),
{
    let mut r: Vec<SalsaDocTagSummary> = Vec::new();
    let mut i: usize = 0;
    while i < v.len()
        invariant
            i <= v@.len(),
            tags_view(r@) == tags_view(v@.take(i as int)),
        decreases v@.len() - i,
    {
        let ghost before = r@;
        r.push(clone_tag(&v[i]));
        assert(v@.take(i + 1) =~= v@.take(i as int).push(v@[i as int]));
        assert(tags_view(r@) =~= tags_view(before).push(v@[i as int]@));
        assert(tags_view(v@.take(i + 1)) =~= tags_view(v@.take(i as int)).push(v@[i as int]@));
        i = i + 1;
    }
    assert(v@.take(i as int) =~= v@);
    r
}

fn clone_actions(v: &Vec<SalsaDocDiagnosticActionSummary>) -> (r: Vec<SalsaDocDiagnosticActionSummary>)
    ensures
        r@ == v@,
{
    let mut r: Vec<SalsaDocDiagnosticActionSummary> = Vec::new();
    let mut i: usize = 0;
    while i < v.len()
        invariant
            i <= v@.len(),
            r@ == v@.take(i as int),
        decreases v@.len() - i,
    {
        let a = &v[i];
        r.push(SalsaDocDiagnosticActionSummary {
            syntax_offset: a.syntax_offset,
            kind: a.kind,
            code_name: clone_opt_string(&a.code_name),
        });
        assert(r@ =~= v@.take(i + 1));
        i = i + 1;
    }
    assert(v@.take(i as int) =~= v@);
    r
}

fn clone_entry(e: &SalsaDocTagPropertyEntrySummary) -> (r: SalsaDocTagPropertyEntrySummary)
    ensures
        r@ == e@,
{
    match e {
        SalsaDocTagPropertyEntrySummary::Visibility(v) => SalsaDocTagPropertyEntrySummary::Visibility(*v),
        SalsaDocTagPropertyEntrySummary::Source(x) => SalsaDocTagPropertyEntrySummary::Source(x.clone()),
        SalsaDocTagPropertyEntrySummary::Module(x) => SalsaDocTagPropertyEntrySummary::Module(x.clone()),
        SalsaDocTagPropertyEntrySummary::Namespace(x) => SalsaDocTagPropertyEntrySummary::Namespace(x.clone()),
        SalsaDocTagPropertyEntrySummary::Meta(x) => SalsaDocTagPropertyEntrySummary::Meta(x.clone()),
        SalsaDocTagPropertyEntrySummary::Language(x) => SalsaDocTagPropertyEntrySummary::Language(x.clone()),
        SalsaDocTagPropertyEntrySummary::Deprecated(m) => SalsaDocTagPropertyEntrySummary::Deprecated(
            clone_opt_string(m),
        ),
        SalsaDocTagPropertyEntrySummary::Nodiscard(m) => SalsaDocTagPropertyEntrySummary::Nodiscard(
            clone_opt_string(m),
        ),
        SalsaDocTagPropertyEntrySummary::Version(v) => SalsaDocTagPropertyEntrySummary::Version(
            clone_version_conds(v),
        ),
        SalsaDocTagPropertyEntrySummary::Using(x) => SalsaDocTagPropertyEntrySummary::Using(x.clone()),
        SalsaDocTagPropertyEntrySummary::See(x) => SalsaDocTagPropertyEntrySummary::See(x.clone()),
        SalsaDocTagPropertyEntrySummary::Diagnostic(d) => SalsaDocTagPropertyEntrySummary::Diagnostic(
            clone_actions(d),
        ),
        SalsaDocTagPropertyEntrySummary::CustomTag(t) => SalsaDocTagPropertyEntrySummary::CustomTag(
            Box::new(SalsaDocTagNameContentSummary { name: t.name.clone(), content: clone_opt_string(&t.content) }),
        ),
        SalsaDocTagPropertyEntrySummary::AttributeUse(x) => SalsaDocTagPropertyEntrySummary::AttributeUse(
            x.clone(),
        ),
        SalsaDocTagPropertyEntrySummary::Schema(x) => SalsaDocTagPropertyEntrySummary::Schema(x.clone()),
        SalsaDocTagPropertyEntrySummary::Async => SalsaDocTagPropertyEntrySummary::Async,
        SalsaDocTagPropertyEntrySummary::Readonly => SalsaDocTagPropertyEntrySummary::Readonly,
    }
}

pub(crate) fn clone_doc_property(p: &SalsaDocTagPropertySummary) -> (r: SalsaDocTagPropertySummary)
    ensures
        r@ == p@,
{
    let mut entries: Vec<SalsaDocTagPropertyEntrySummary> = Vec::new();
    let mut i: usize = 0;
    while i < p.entries.len()
        invariant
            i <= p.entries@.len(),
            entries_view(entries@) == entries_view(p.entries@.take(i as int)),
        decreases p.entries@.len() - i,
    {
        push_entry(&mut entries, clone_entry(&p.entries[i]));
        assert(entries_view(p.entries@.take(i + 1)) =~= entries_view(p.entries@.take(i as int)).push(
            p.entries@[i as int]@,
        ));
        i = i + 1;
    }
    assert(p.entries@.take(i as int) =~= p.entries@);
    SalsaDocTagPropertySummary { owner: p.owner, entries }
}

pub(crate) fn clone_doc_properties(v: &[SalsaDocTagPropertySummary]) -> (r: Vec<SalsaDocTagPropertySummary>)
    ensures
        doc_props_view(r@) == doc_props_view(v@),
{
    let mut r: Vec<SalsaDocTagPropertySummary> = Vec::new();
    let mut i: usize = 0;
    while i < v.len()
        invariant
            i <= v@.len(),
            doc_props_view(r@) == doc_props_view(v@.take(i as int)),
        decreases v@.len() - i,
    {
        let ghost before = r@;
        r.push(clone_doc_property(&v[i]));
        assert(v@.take(i + 1) =~= v@.take(i as int).push(v@[i as int]));
        assert(doc_props_view(r@) =~= doc_props_view(before).push(v@[i as int]@));
        assert(doc_props_view(v@.take(i + 1)) =~= doc_props_view(v@.take(i as int)).push(v@[i as int]@));
        i = i + 1;
    }
    assert(v@.take(i as int) =~= v@);
    r
}

/// Builds the query index of a file's tags: the tags as they are, and the
/// properties that the property-like ones add up to.
pub fn build_doc_tag_query_index(doc: &SalsaDocSummary) -> (r: SalsaDocTagQueryIndex)
    ensures
        tags_view(r.tags@) == tags_view(doc.tags@),
        doc_props_view(r.properties@) == spec_doc_tag_properties(tags_view(doc.tags@)),
{
    let tags = clone_tags(&doc.tags);
    let properties = build_doc_tag_properties_from_tags(&doc.tags);
    SalsaDocTagQueryIndex { tags, properties }
}

/// Builds a query index that holds the given properties and no tags.
pub fn build_doc_tag_query_index_from_properties(properties: &[SalsaDocTagPropertySummary]) -> (r:
    SalsaDocTagQueryIndex)
    ensures
        r.tags@.len() == 0,
        doc_props_view(r.properties@) == doc_props_view(properties@),
{
    SalsaDocTagQueryIndex { tags: Vec::new(), properties: clone_doc_properties(properties) }
}

pub open spec fn opt_tag_view(t: Option<SalsaDocTagSummary>) -> Option<TagView> {
    match t {
        Some(t) => Some(t@),
        None => None,
    }
}

pub open spec fn opt_doc_prop_view(p: Option<SalsaDocTagPropertySummary>) -> Option<DocPropertyView> {
    match p {
        Some(p) => Some(p@),
        None => None,
    }
}

/// The first of `s` placed at `offset`, if any.
pub open spec fn spec_first_tag_at(s: Seq<TagView>, offset: u32) -> Option<TagView> {
    if exists|i: int| 0 <= i < s.len() && (#[trigger] s[i]).syntax_offset == offset {
        let i = choose|i: int|
            0 <= i < s.len() && (#[trigger] s[i]).syntax_offset == offset && forall|j: int|
                0 <= j < i ==> (#[trigger] s[j]).syntax_offset != offset;
        Some(s[i])
    } else {
        None
    }
}

/// The first of `s` that belongs to `owner`, if any.
pub open spec fn spec_first_property_of(s: Seq<DocPropertyView>, owner: SalsaDocOwnerSummary) -> Option<
    DocPropertyView,
> {
    if exists|i: int| 0 <= i < s.len() && (#[trigger] s[i]).owner == owner {
        let i = choose|i: int|
            0 <= i < s.len() && (#[trigger] s[i]).owner == owner && forall|j: int|
                0 <= j < i ==> (#[trigger] s[j]).owner != owner;
        Some(s[i])
    } else {
        None
    }
}

/// The first tag placed at `syntax_offset`.
pub fn find_doc_tag_at_in_index(index: &SalsaDocTagQueryIndex, syntax_offset: u32) -> (r: Option<
    SalsaDocTagSummary,
>)
    ensures
        opt_tag_view(r) == spec_first_tag_at(tags_view(index.tags@), syntax_offset),
{
    let ghost v = tags_view(index.tags@);
    let mut i: usize = 0;
    while i < index.tags.len()
        invariant
            v == tags_view(index.tags@),
            i <= v.len(),
            forall|j: int| 0 <= j < i ==> (#[trigger] v[j]).syntax_offset != syntax_offset,
        decreases v.len() - i,
    {
        assert(v[i as int] == index.tags@[i as int]@);
        if index.tags[i].syntax_offset == syntax_offset {
            let ghost k = choose|k: int|
                0 <= k < v.len() && (#[trigger] v[k]).syntax_offset == syntax_offset && forall|j: int|
                    0 <= j < k ==> (#[trigger] v[j]).syntax_offset != syntax_offset;
            assert(k == i) by {
                if k < i {
                } else if k > i {
                    assert(v[i as int].syntax_offset == syntax_offset);
                }
            }
            return Some(clone_tag(&index.tags[i]));
        }
        i = i + 1;
    }
    None
}

/// The tags of kind `kind`, in order.
pub fn collect_doc_tags_for_kind_in_index(index: &SalsaDocTagQueryIndex, kind: &SalsaDocTagKindSummary) -> (r:
    Vec<SalsaDocTagSummary>)
    ensures
        tags_view(r@) == tags_view(index.tags@).filter(|t: TagView| t.kind == *kind),
{
    let ghost v = tags_view(index.tags@);
    let mut r: Vec<SalsaDocTagSummary> = Vec::new();
    let mut i: usize = 0;
    while i < index.tags.len()
        invariant
            v == tags_view(index.tags@),
            i <= v.len(),
            tags_view(r@) == v.take(i as int).filter(|t: TagView| t.kind == *kind),
        decreases v.len() - i,
    {
        proof { lemma_filter_take_step(v, |t: TagView| t.kind == *kind, i as int); }
        assert(v[i as int] == index.tags@[i as int]@);
        if index.tags[i].kind == *kind {
            let ghost before = r@;
            r.push(clone_tag(&index.tags[i]));
            assert(tags_view(r@) =~= tags_view(before).push(v[i as int]));
        }
        i = i + 1;
    }
    assert(v.take(i as int) =~= v);
    r
}

/// The tags attached to `owner`, in order.
pub fn collect_doc_tags_for_owner_in_index(index: &SalsaDocTagQueryIndex, owner: &SalsaDocOwnerSummary) -> (r:
    Vec<SalsaDocTagSummary>)
    ensures
        tags_view(r@) == tags_view(index.tags@).filter(|t: TagView| t.owner == *owner),
{
    let ghost v = tags_view(index.tags@);
    let mut r: Vec<SalsaDocTagSummary> = Vec::new();
    let mut i: usize = 0;
    while i < index.tags.len()
        invariant
            v == tags_view(index.tags@),
            i <= v.len(),
            tags_view(r@) == v.take(i as int).filter(|t: TagView| t.owner == *owner),
        decreases v.len() - i,
    {
        proof { lemma_filter_take_step(v, |t: TagView| t.owner == *owner, i as int); }
        assert(v[i as int] == index.tags@[i as int]@);
        if index.tags[i].owner == *owner {
            let ghost before = r@;
            r.push(clone_tag(&index.tags[i]));
            assert(tags_view(r@) =~= tags_view(before).push(v[i as int]));
        }
        i = i + 1;
    }
    assert(v.take(i as int) =~= v);
    r
}

/// The first property of `owner`.
pub fn find_doc_tag_property_in_index(index: &SalsaDocTagQueryIndex, owner: &SalsaDocOwnerSummary) -> (r: Option<
    SalsaDocTagPropertySummary,
>)
    ensures
        opt_doc_prop_view(r) == spec_first_property_of(doc_props_view(index.properties@), *owner),
{
    let ghost v = doc_props_view(index.properties@);
    let mut i: usize = 0;
    while i < index.properties.len()
        invariant
            v == doc_props_view(index.properties@),
            i <= v.len(),
            forall|j: int| 0 <= j < i ==> (#[trigger] v[j]).owner != *owner,
        decreases v.len() - i,
    {
        assert(v[i as int] == index.properties@[i as int]@);
        if index.properties[i].owner == *owner {
            let ghost k = choose|k: int|
                0 <= k < v.len() && (#[trigger] v[k]).owner == *owner && forall|j: int|
                    0 <= j < k ==> (#[trigger] v[j]).owner != *owner;
            assert(k == i) by {
                if k < i {
                } else if k > i {
                    assert(v[i as int].owner == *owner);
                }
            }
            return Some(clone_doc_property(&index.properties[i]));
        }
        i = i + 1;
    }
    None
}

fn owners_contain(owners: &[SalsaDocOwnerSummary], owner: &SalsaDocOwnerSummary) -> (r: bool)
    ensures
        r == owners@.contains(*owner),
{
    let mut i: usize = 0;
    while i < owners.len()
        invariant
            i <= owners@.len(),
            forall|j: int| 0 <= j < i ==> owners@[j] != *owner,
        decreases owners@.len() - i,
    {
        if owners[i] == *owner {
            assert(owners@[i as int] == *owner);
            return true;
        }
        i = i + 1;
    }
    false
}

/// The properties of any of `owners`, in index order, each once.
pub fn collect_doc_tag_properties_for_owners_in_index(
    index: &SalsaDocTagQueryIndex,
    owners: &[SalsaDocOwnerSummary],
) -> (r: Vec<SalsaDocTagPropertySummary>)
    ensures
        doc_props_view(r@) == doc_props_view(index.properties@).filter(
            |p: DocPropertyView| owners@.contains(p.owner),
        ),
{
    let ghost v = doc_props_view(index.properties@);
    let mut r: Vec<SalsaDocTagPropertySummary> = Vec::new();
    let mut i: usize = 0;
    while i < index.properties.len()
        invariant
            v == doc_props_view(index.properties@),
            i <= v.len(),
            doc_props_view(r@) == v.take(i as int).filter(|p: DocPropertyView| owners@.contains(p.owner)),
        decreases v.len() - i,
    {
        proof { lemma_filter_take_step(v, |p: DocPropertyView| owners@.contains(p.owner), i as int); }
        assert(v[i as int] == index.properties@[i as int]@);
        if owners_contain(owners, &index.properties[i].owner) {
            let ghost before = r@;
            r.push(clone_doc_property(&index.properties[i]));
            assert(doc_props_view(r@) =~= doc_props_view(before).push(v[i as int]));
        }
        i = i + 1;
    }
    assert(v.take(i as int) =~= v);
    r
}

/// The properties whose owner has no position (those of the file), in order.
pub fn collect_ownerless_doc_tag_properties_in_index(index: &SalsaDocTagQueryIndex) -> (r: Vec<
    SalsaDocTagPropertySummary,
>)
    ensures
        doc_props_view(r@) == doc_props_view(index.properties@).filter(
            |p: DocPropertyView| p.owner.syntax_offset is None,
        ),
{
    let ghost v = doc_props_view(index.properties@);
    let mut r: Vec<SalsaDocTagPropertySummary> = Vec::new();
    let mut i: usize = 0;
    while i < index.properties.len()
        invariant
            v == doc_props_view(index.properties@),
            i <= v.len(),
            doc_props_view(r@) == v.take(i as int).filter(|p: DocPropertyView| p.owner.syntax_offset is None),
        decreases v.len() - i,
    {
        proof { lemma_filter_take_step(v, |p: DocPropertyView| p.owner.syntax_offset is None, i as int); }
        assert(v[i as int] == index.properties@[i as int]@);
        if index.properties[i].owner.syntax_offset.is_none() {
            let ghost before = r@;
            r.push(clone_doc_property(&index.properties[i]));
            assert(doc_props_view(r@) =~= doc_props_view(before).push(v[i as int]));
        }
        i = i + 1;
    }
    assert(v.take(i as int) =~= v);
    r
}

/// The first tag of `doc` placed at `syntax_offset`.
pub fn find_doc_tag_at(doc: &SalsaDocSummary, syntax_offset: u32) -> (r: Option<SalsaDocTagSummary>)
    ensures
        opt_tag_view(r) == spec_first_tag_at(tags_view(doc.tags@), syntax_offset),
{
    let index = build_doc_tag_query_index(doc);
    find_doc_tag_at_in_index(&index, syntax_offset)
}

/// The tags of `doc` of kind `kind`, in order.
pub fn collect_doc_tags_for_kind(doc: &SalsaDocSummary, kind: &SalsaDocTagKindSummary) -> (r: Vec<
    SalsaDocTagSummary,
>)
    ensures
        tags_view(r@) == tags_view(doc.tags@).filter(|t: TagView| t.kind == *kind),
{
    let index = build_doc_tag_query_index(doc);
    collect_doc_tags_for_kind_in_index(&index, kind)
}

/// The tags of `doc` attached to `owner`, in order.
pub fn collect_doc_tags_for_owner(doc: &SalsaDocSummary, owner: &SalsaDocOwnerSummary) -> (r: Vec<
    SalsaDocTagSummary,
>)
    ensures
        tags_view(r@) == tags_view(doc.tags@).filter(|t: TagView| t.owner == *owner),
{
    let index = build_doc_tag_query_index(doc);
    collect_doc_tags_for_owner_in_index(&index, owner)
}

/// The properties that the tags of `doc` add up to.
pub fn collect_doc_tag_properties(doc: &SalsaDocSummary) -> (r: Vec<SalsaDocTagPropertySummary>)
    ensures
        doc_props_view(r@) == spec_doc_tag_properties(tags_view(doc.tags@)),
{
    build_doc_tag_query_index(doc).properties
}

/// The property of `owner` in `doc`.
pub fn find_doc_tag_property(doc: &SalsaDocSummary, owner: &SalsaDocOwnerSummary) -> (r: Option<
    SalsaDocTagPropertySummary,
>)
    ensures
        opt_doc_prop_view(r) == spec_first_property_of(spec_doc_tag_properties(tags_view(doc.tags@)), *owner),
{
    let index = build_doc_tag_query_index(doc);
    find_doc_tag_property_in_index(&index, owner)
}

/// Which variant an entry is, numbered in declaration order.
pub open spec fn spec_entry_variant(e: EntryView) -> int {
    match e {
        EntryView::Visibility(_) => 0,
        EntryView::Source(_) => 1,
        EntryView::Module(_) => 2,
        EntryView::Namespace(_) => 3,
        EntryView::Meta(_) => 4,
        EntryView::Language(_) => 5,
        EntryView::Deprecated(_) => 6,
        EntryView::Nodiscard(_) => 7,
        EntryView::Version(_) => 8,
        EntryView::Using(_) => 9,
        EntryView::See(_) => 10,
        EntryView::Diagnostic(_) => 11,
        EntryView::CustomTag(_) => 12,
        EntryView::AttributeUse(_) => 13,
        EntryView::Schema(_) => 14,
        EntryView::Async => 15,
        EntryView::Readonly => 16,
    }
}

/// The text that an entry carries, for the variants that carry one.
pub open spec fn spec_entry_text(e: EntryView) -> Option<String> {
    match e {
        EntryView::Source(s) => Some(s),
        EntryView::Module(s) => Some(s),
        EntryView::Namespace(s) => Some(s),
        EntryView::Meta(s) => Some(s),
        EntryView::Language(s) => Some(s),
        EntryView::Using(s) => Some(s),
        EntryView::See(s) => Some(s),
        EntryView::AttributeUse(s) => Some(s),
        EntryView::Schema(s) => Some(s),
        _ => None,
    }
}

/// Index of the first entry of variant `n`, or -1.
pub open spec fn spec_first_of_variant(s: Seq<EntryView>, n: int) -> int
    decreases s.len(),
{
    if s.len() == 0 {
        -1
    } else if spec_entry_variant(s[0]) == n {
        0
    } else {
        let r = spec_first_of_variant(s.drop_first(), n);
        if r == -1 { -1 } else { r + 1 }
    }
}

/// The text of the first entry of variant `n`.
pub open spec fn spec_first_text(s: Seq<EntryView>, n: int) -> Option<String> {
    let i = spec_first_of_variant(s, n);
    if i >= 0 { spec_entry_text(s[i]) } else { None }
}

/// The texts of the entries of variant `n`, in order.
pub open spec fn spec_texts_of_variant(s: Seq<EntryView>, n: int) -> Seq<String>
    decreases s.len(),
{
    if s.len() == 0 {
        Seq::empty()
    } else {
        let prev = spec_texts_of_variant(s.drop_last(), n);
        if spec_entry_variant(s.last()) == n {
            match spec_entry_text(s.last()) {
                Some(t) => prev.push(t),
                None => prev,
            }
        } else {
            prev
        }
    }
}

/// The action lists of the `@diagnostic` entries, in order.
pub open spec fn spec_diagnostic_groups(s: Seq<EntryView>) -> Seq<Seq<SalsaDocDiagnosticActionSummary>>
    decreases s.len(),
{
    if s.len() == 0 {
        Seq::empty()
    } else {
        let prev = spec_diagnostic_groups(s.drop_last());
        match s.last() {
            EntryView::Diagnostic(d) => prev.push(d),
            _ => prev,
        }
    }
}

/// The custom tags among the entries, in order.
pub open spec fn spec_custom_tags(s: Seq<EntryView>) -> Seq<SalsaDocTagNameContentSummary>
    decreases s.len(),
{
    if s.len() == 0 {
        Seq::empty()
    } else {
        let prev = spec_custom_tags(s.drop_last());
        match s.last() {
            EntryView::CustomTag(t) => prev.push(t),
            _ => prev,
        }
    }
}

pub proof fn lemma_first_of_variant(s: Seq<EntryView>, n: int)
    ensures
        -1 <= spec_first_of_variant(s, n) < s.len(),
        spec_first_of_variant(s, n) >= 0 ==> spec_entry_variant(s[spec_first_of_variant(s, n)]) == n,
        forall|j: int|
            0 <= j < s.len() && (spec_first_of_variant(s, n) == -1 || j < spec_first_of_variant(s, n))
                ==> spec_entry_variant(#[trigger] s[j]) != n,
    decreases s.len(),
{
    if s.len() > 0 && spec_entry_variant(s[0]) != n {
        lemma_first_of_variant(s.drop_first(), n);
        assert forall|j: int|
            0 <= j < s.len() && (spec_first_of_variant(s, n) == -1 || j < spec_first_of_variant(s, n))
                implies spec_entry_variant(#[trigger] s[j]) != n by {
            if j > 0 {
                assert(s[j] == s.drop_first()[j - 1]);
            }
        }
    }
}

fn entry_variant(e: &SalsaDocTagPropertyEntrySummary) -> (r: u8)
    ensures
        r == spec_entry_variant(e@),
{
    match e {
        SalsaDocTagPropertyEntrySummary::Visibility(_) => 0,
        SalsaDocTagPropertyEntrySummary::Source(_) => 1,
        SalsaDocTagPropertyEntrySummary::Module(_) => 2,
        SalsaDocTagPropertyEntrySummary::Namespace(_) => 3,
        SalsaDocTagPropertyEntrySummary::Meta(_) => 4,
        SalsaDocTagPropertyEntrySummary::Language(_) => 5,
        SalsaDocTagPropertyEntrySummary::Deprecated(_) => 6,
        SalsaDocTagPropertyEntrySummary::Nodiscard(_) => 7,
        SalsaDocTagPropertyEntrySummary::Version(_) => 8,
        SalsaDocTagPropertyEntrySummary::Using(_) => 9,
        SalsaDocTagPropertyEntrySummary::See(_) => 10,
        SalsaDocTagPropertyEntrySummary::Diagnostic(_) => 11,
        SalsaDocTagPropertyEntrySummary::CustomTag(_) => 12,
        SalsaDocTagPropertyEntrySummary::AttributeUse(_) => 13,
        SalsaDocTagPropertyEntrySummary::Schema(_) => 14,
        SalsaDocTagPropertyEntrySummary::Async => 15,
        SalsaDocTagPropertyEntrySummary::Readonly => 16,
    }
}

fn first_variant_index(entries: &Vec<SalsaDocTagPropertyEntrySummary>, n: u8) -> (r: Option<usize>)
    ensures
        match r {
            Some(i) => i as int == spec_first_of_variant(entries_view(entries@), n as int) && i < entries@.len(),
            None => spec_first_of_variant(entries_view(entries@), n as int) == -1,
        },
{
    let ghost v = entries_view(entries@);
    proof { lemma_first_of_variant(v, n as int); }
    let mut i: usize = 0;
    while i < entries.len()
        invariant
            v == entries_view(entries@),
            i <= v.len(),
            forall|j: int| 0 <= j < i ==> spec_entry_variant(#[trigger] v[j]) != n,
            -1 <= spec_first_of_variant(v, n as int) < v.len(),
            spec_first_of_variant(v, n as int) >= 0 ==> spec_entry_variant(v[spec_first_of_variant(v, n as int)])
                == n,
            forall|j: int|
                0 <= j < v.len() && (spec_first_of_variant(v, n as int) == -1 || j < spec_first_of_variant(
                    v,
                    n as int,
                )) ==> spec_entry_variant(#[trigger] v[j]) != n,
        decreases v.len() - i,
    {
        assert(v[i as int] == entries@[i as int]@);
        if entry_variant(&entries[i]) == n {
            return Some(i);
        }
        i = i + 1;
    }
    None
}

fn texts_of_variant(entries: &Vec<SalsaDocTagPropertyEntrySummary>, n: u8) -> (r: Vec<String>)
    ensures
        r@ == spec_texts_of_variant(entries_view(entries@), n as int),
{
    let ghost v = entries_view(entries@);
    let mut r: Vec<String> = Vec::new();
    let mut i: usize = 0;
    while i < entries.len()
        invariant
            v == entries_view(entries@),
            i <= v.len(),
            r@ == spec_texts_of_variant(v.take(i as int), n as int),
        decreases v.len() - i,
    {
        assert(v.take(i + 1).drop_last() =~= v.take(i as int));
        assert(v[i as int] == entries@[i as int]@);
        if entry_variant(&entries[i]) == n {
            match &entries[i] {
                SalsaDocTagPropertyEntrySummary::Source(t)
                | SalsaDocTagPropertyEntrySummary::Module(t)
                | SalsaDocTagPropertyEntrySummary::Namespace(t)
                | SalsaDocTagPropertyEntrySummary::Meta(t)
                | SalsaDocTagPropertyEntrySummary::Language(t)
                | SalsaDocTagPropertyEntrySummary::Using(t)
                | SalsaDocTagPropertyEntrySummary::See(t)
                | SalsaDocTagPropertyEntrySummary::AttributeUse(t)
                | SalsaDocTagPropertyEntrySummary::Schema(t) => {
                    r.push(t.clone());
                },
                _ => {},
            }
        }
        i = i + 1;
    }
    assert(v.take(i as int) =~= v);
    r
}

impl SalsaDocTagPropertySummary {
    fn first_text(&self, n: u8) -> (r: Option<&String>)
        ensures
            match r {
                Some(t) => spec_first_text(self@.entries, n as int) == Some(*t),
                None => spec_first_text(self@.entries, n as int) is None,
            },
    {
        match first_variant_index(&self.entries, n) {
            Some(i) => {
                assert(self@.entries[i as int] == self.entries@[i as int]@);
                match &self.entries[i] {
                    SalsaDocTagPropertyEntrySummary::Source(t)
                    | SalsaDocTagPropertyEntrySummary::Module(t)
                    | SalsaDocTagPropertyEntrySummary::Namespace(t)
                    | SalsaDocTagPropertyEntrySummary::Meta(t)
                    | SalsaDocTagPropertyEntrySummary::Language(t)
                    | SalsaDocTagPropertyEntrySummary::Using(t)
                    | SalsaDocTagPropertyEntrySummary::See(t)
                    | SalsaDocTagPropertyEntrySummary::AttributeUse(t)
                    | SalsaDocTagPropertyEntrySummary::Schema(t) => Some(t),
                    _ => None,
                }
            },
            None => None,
        }
    }

    /// The visibility of the first `@visibility` entry.
    pub fn visibility(&self) -> (r: Option<&SalsaDocVisibilityKindSummary>)
        ensures
            ({
                let i = spec_first_of_variant(self@.entries, 0);
                match r {
                    Some(v) => i >= 0 && self@.entries[i] == EntryView::Visibility(*v),
                    None => i == -1,
                }
            }),
    {
        proof { lemma_first_of_variant(self@.entries, 0); }
        match first_variant_index(&self.entries, 0) {
            Some(i) => {
                assert(self@.entries[i as int] == self.entries@[i as int]@);
                match &self.entries[i] {
                    SalsaDocTagPropertyEntrySummary::Visibility(v) => Some(v),
                    _ => None,
                }
            },
            None => None,
        }
    }

    /// The text of the first `@source` entry.
    pub fn source(&self) -> (r: Option<&String>)
        ensures
            match r {
                Some(t) => spec_first_text(self@.entries, 1) == Some(*t),
                None => spec_first_text(self@.entries, 1) is None,
            },
    {
        self.first_text(1)
    }

    /// The name of the first `@module` entry.
    pub fn module(&self) -> (r: Option<&String>)
        ensures
            match r {
                Some(t) => spec_first_text(self@.entries, 2) == Some(*t),
                None => spec_first_text(self@.entries, 2) is None,
            },
    {
        self.first_text(2)
    }

    /// The name of the first `@namespace` entry.
    pub fn namespace(&self) -> (r: Option<&String>)
        ensures
            match r {
                Some(t) => spec_first_text(self@.entries, 3) == Some(*t),
                None => spec_first_text(self@.entries, 3) is None,
            },
    {
        self.first_text(3)
    }

    /// The name of the first `@meta` entry.
    pub fn meta(&self) -> (r: Option<&String>)
        ensures
            match r {
                Some(t) => spec_first_text(self@.entries, 4) == Some(*t),
                None => spec_first_text(self@.entries, 4) is None,
            },
    {
        self.first_text(4)
    }

    /// The name of the first `@language` entry.
    pub fn language(&self) -> (r: Option<&String>)
        ensures
            match r {
                Some(t) => spec_first_text(self@.entries, 5) == Some(*t),
                None => spec_first_text(self@.entries, 5) is None,
            },
    {
        self.first_text(5)
    }

    /// The message of the first `@deprecated` entry: `None` where there is no
    /// such entry, `Some(None)` where it has no message.
    pub fn deprecated_message(&self) -> (r: Option<Option<&String>>)
        ensures
            ({
                let i = spec_first_of_variant(self@.entries, 6);
                match r {
                    Some(Some(m)) => i >= 0 && self@.entries[i] == EntryView::Deprecated(Some(*m)),
                    Some(None) => i >= 0 && self@.entries[i] == EntryView::Deprecated(None),
                    None => i == -1,
                }
            }),
    {
        proof { lemma_first_of_variant(self@.entries, 6); }
        match first_variant_index(&self.entries, 6) {
            Some(i) => {
                assert(self@.entries[i as int] == self.entries@[i as int]@);
                match &self.entries[i] {
                    SalsaDocTagPropertyEntrySummary::Deprecated(m) => Some(m.as_ref()),
                    _ => None,
                }
            },
            None => None,
        }
    }

    /// The message of the first `@nodiscard` entry: `None` where there is no
    /// such entry, `Some(None)` where it has no message.
    pub fn nodiscard_message(&self) -> (r: Option<Option<&String>>)
        ensures
            ({
                let i = spec_first_of_variant(self@.entries, 7);
                match r {
                    Some(Some(m)) => i >= 0 && self@.entries[i] == EntryView::Nodiscard(Some(*m)),
                    Some(None) => i >= 0 && self@.entries[i] == EntryView::Nodiscard(None),
                    None => i == -1,
                }
            }),
    {
        proof { lemma_first_of_variant(self@.entries, 7); }
        match first_variant_index(&self.entries, 7) {
            Some(i) => {
                assert(self@.entries[i as int] == self.entries@[i as int]@);
                match &self.entries[i] {
                    SalsaDocTagPropertyEntrySummary::Nodiscard(m) => Some(m.as_ref()),
                    _ => None,
                }
            },
            None => None,
        }
    }

    /// The conditions of the first `@version` entry, or none.
    pub fn version_conds(&self) -> (r: Vec<SalsaDocVersionConditionSummary>)
        ensures
            ({
                let i = spec_first_of_variant(self@.entries, 8);
                if i >= 0 {
                    self@.entries[i] == EntryView::Version(r@)
                } else {
                    r@.len() == 0
                }
            }),
    {
        proof { lemma_first_of_variant(self@.entries, 8); }
        match first_variant_index(&self.entries, 8) {
            Some(i) => {
                assert(self@.entries[i as int] == self.entries@[i as int]@);
                match &self.entries[i] {
                    SalsaDocTagPropertyEntrySummary::Version(v) => clone_version_conds(v),
                    _ => Vec::new(),
                }
            },
            None => Vec::new(),
        }
    }

    /// The names of the `@using` entries, in order.
    pub fn using_names(&self) -> (r: Vec<String>)
        ensures
            r@ == spec_texts_of_variant(self@.entries, 9),
    {
        texts_of_variant(&self.entries, 9)
    }

    /// The texts of the `@see` entries, in order.
    pub fn see(&self) -> (r: Vec<String>)
        ensures
            r@ == spec_texts_of_variant(self@.entries, 10),
    {
        texts_of_variant(&self.entries, 10)
    }

    /// The names of the attribute-use entries, in order.
    pub fn attribute_uses(&self) -> (r: Vec<String>)
        ensures
            r@ == spec_texts_of_variant(self@.entries, 13),
    {
        texts_of_variant(&self.entries, 13)
    }

    /// The texts of the `@schema` entries, in order.
    pub fn schemas(&self) -> (r: Vec<String>)
        ensures
            r@ == spec_texts_of_variant(self@.entries, 14),
    {
        texts_of_variant(&self.entries, 14)
    }

    /// The action lists of the `@diagnostic` entries, in order.
    pub fn diagnostics(&self) -> (r: Vec<Vec<SalsaDocDiagnosticActionSummary>>)
        ensures
            r@.len() == spec_diagnostic_groups(self@.entries).len(),
            forall|k: int| 0 <= k < r@.len() ==> #[trigger] r@[k]@ == spec_diagnostic_groups(self@.entries)[k],
    {
        let ghost v = self@.entries;
        let mut r: Vec<Vec<SalsaDocDiagnosticActionSummary>> = Vec::new();
        let mut i: usize = 0;
        while i < self.entries.len()
            invariant
                v == self@.entries,
                v == entries_view(self.entries@),
                i <= v.len(),
                r@.len() == spec_diagnostic_groups(v.take(i as int)).len(),
                forall|k: int| 0 <= k < r@.len() ==> #[trigger] r@[k]@ == spec_diagnostic_groups(v.take(i as int))[k],
            decreases v.len() - i,
        {
            assert(v.take(i + 1).drop_last() =~= v.take(i as int));
            assert(v[i as int] == self.entries@[i as int]@);
            match &self.entries[i] {
                SalsaDocTagPropertyEntrySummary::Diagnostic(d) => {
                    r.push(clone_actions(d));
                },
                _ => {},
            }
            i = i + 1;
        }
        assert(v.take(i as int) =~= v);
        r
    }

    /// The custom tags among the entries, in order.
    pub fn custom_tags(&self) -> (r: Vec<SalsaDocTagNameContentSummary>)
        ensures
            r@ == spec_custom_tags(self@.entries),
    {
        let ghost v = self@.entries;
        let mut r: Vec<SalsaDocTagNameContentSummary> = Vec::new();
        let mut i: usize = 0;
        while i < self.entries.len()
            invariant
                v == self@.entries,
                v == entries_view(self.entries@),
                i <= v.len(),
                r@ == spec_custom_tags(v.take(i as int)),
            decreases v.len() - i,
        {
            assert(v.take(i + 1).drop_last() =~= v.take(i as int));
            assert(v[i as int] == self.entries@[i as int]@);
            match &self.entries[i] {
                SalsaDocTagPropertyEntrySummary::CustomTag(t) => {
                    r.push(SalsaDocTagNameContentSummary { name: t.name.clone(), content: clone_opt_string(&t.content) });
                },
                _ => {},
            }
            i = i + 1;
        }
        assert(v.take(i as int) =~= v);
        r
    }

    /// Whether some entry is `@deprecated`.
    pub fn is_deprecated(&self) -> (r: bool)
        ensures
            r == exists|i: int| 0 <= i < self@.entries.len() && spec_entry_variant(#[trigger] self@.entries[i]) == 6,
    {
        proof { lemma_first_of_variant(self@.entries, 6); }
        first_variant_index(&self.entries, 6).is_some()
    }

    /// Whether some entry is `@nodiscard`.
    pub fn is_nodiscard(&self) -> (r: bool)
        ensures
            r == exists|i: int| 0 <= i < self@.entries.len() && spec_entry_variant(#[trigger] self@.entries[i]) == 7,
    {
        proof { lemma_first_of_variant(self@.entries, 7); }
        first_variant_index(&self.entries, 7).is_some()
    }

    /// Whether some entry is `@async`.
    pub fn is_async(&self) -> (r: bool)
        ensures
            r == exists|i: int| 0 <= i < self@.entries.len() && spec_entry_variant(#[trigger] self@.entries[i]) == 15,
    {
        proof { lemma_first_of_variant(self@.entries, 15); }
        first_variant_index(&self.entries, 15).is_some()
    }

    /// Whether some entry is `@readonly`.
    pub fn is_readonly(&self) -> (r: bool)
        ensures
            r == exists|i: int| 0 <= i < self@.entries.len() && spec_entry_variant(#[trigger] self@.entries[i]) == 16,
    {
        proof { lemma_first_of_variant(self@.entries, 16); }
        first_variant_index(&self.entries, 16).is_some()
    }
}

/// Tags in sorted order: each may stand before every later one.
pub open spec fn tags_in_order(s: Seq<TagView>) -> bool {
    forall|i: int, j: int| 0 <= i < j < s.len() ==> spec_tag_key_le(#[trigger] s[i], #[trigger] s[j])
}

/// Some property belongs to `o`.
pub open spec fn props_have_owner(s: Seq<DocPropertyView>, o: SalsaDocOwnerSummary) -> bool {
    exists|k: int| 0 <= k < s.len() && #[trigger] s[k].owner == o
}

/// Some tag is attached to `o`.
pub open spec fn tags_have_owner(s: Seq<TagView>, o: SalsaDocOwnerSummary) -> bool {
    exists|k: int| 0 <= k < s.len() && #[trigger] s[k].owner == o
}

/// Properties in increasing owner order.
pub open spec fn properties_in_owner_order(s: Seq<DocPropertyView>) -> bool {
    forall|i: int, j: int| 0 <= i < j < s.len() ==> spec_owner_lt(#[trigger] s[i].owner, #[trigger] s[j].owner)
}

pub proof fn lemma_owner_order(a: SalsaDocOwnerSummary, b: SalsaDocOwnerSummary, c: SalsaDocOwnerSummary)
    ensures
        !spec_owner_lt(a, a),
        a != b ==> spec_owner_lt(a, b) || spec_owner_lt(b, a),
        spec_owner_lt(a, b) && spec_owner_lt(b, c) ==> spec_owner_lt(a, c),
        spec_owner_lt(a, b) ==> !spec_owner_lt(b, a),
{
    if a != b && spec_owner_kind_rank(a.kind) == spec_owner_kind_rank(b.kind) {
        assert(a.kind == b.kind);
    }
    if spec_owner_kind_rank(a.kind) == spec_owner_kind_rank(b.kind) {
        assert(a.kind == b.kind);
    }
    if spec_owner_kind_rank(b.kind) == spec_owner_kind_rank(c.kind) {
        assert(b.kind == c.kind);
    }
}

proof fn lemma_tag_key_total(a: TagView, b: TagView)
    ensures
        spec_tag_key_le(a, b) || spec_tag_key_le(b, a),
{
    lemma_owner_order(a.owner, b.owner, a.owner);
}

proof fn lemma_insert_tag_sorted(t: Seq<TagView>, x: TagView)
    requires
        tags_in_order(t),
    ensures
        tags_in_order(insert_tag_in_order(t, x)),
        insert_tag_in_order(t, x).to_multiset() == t.to_multiset().insert(x),
    decreases t.len(),
{
    broadcast use vstd::multiset::group_multiset_axioms;
    if t.len() == 0 {
        assert(insert_tag_in_order(t, x) =~= seq![x]);
        assert(seq![x].to_multiset() =~= Seq::<TagView>::empty().to_multiset().insert(x)) by {
            vstd::seq_lib::to_multiset_build(Seq::<TagView>::empty(), x);
            assert(Seq::<TagView>::empty().push(x) =~= seq![x]);
        }
        assert(t =~= Seq::<TagView>::empty());
    } else if spec_tag_key_le(t.last(), x) {
        let r = t.push(x);
        assert forall|i: int, j: int| 0 <= i < j < r.len() implies spec_tag_key_le(#[trigger] r[i], #[trigger] r[j]) by {
            if j == r.len() - 1 {
                if i < t.len() - 1 {
                    assert(spec_tag_key_le(t[i], t[t.len() - 1]));
                    lemma_owner_order(t[i].owner, t[t.len() - 1].owner, x.owner);
                }
            } else {
                assert(r[i] == t[i] && r[j] == t[j]);
            }
        }
        vstd::seq_lib::to_multiset_build(t, x);
    } else {
        let d = t.drop_last();
        assert(tags_in_order(d)) by {
            assert forall|i: int, j: int| 0 <= i < j < d.len() implies spec_tag_key_le(#[trigger] d[i], #[trigger] d[j]) by {
                assert(d[i] == t[i] && d[j] == t[j]);
            }
        }
        lemma_insert_tag_sorted(d, x);
        let m = insert_tag_in_order(d, x);
        let r = m.push(t.last());
        assert(insert_tag_in_order(t, x) == r);
        assert forall|k: int| 0 <= k < m.len() implies spec_tag_key_le(#[trigger] m[k], t.last()) by {
            assert(m.to_multiset().count(m[k]) > 0) by {
                assert(m.contains(m[k]));
                m.to_multiset_ensures();
            }
            d.to_multiset_ensures();
            if m[k] == x {
                lemma_tag_key_total(x, t.last());
            } else {
                assert(d.to_multiset().count(m[k]) > 0);
                assert(d.contains(m[k]));
                let q = choose|q: int| 0 <= q < d.len() && d[q] == m[k];
                assert(spec_tag_key_le(t[q], t[t.len() - 1]));
            }
        }
        assert forall|i: int, j: int| 0 <= i < j < r.len() implies spec_tag_key_le(#[trigger] r[i], #[trigger] r[j]) by {
            if j == r.len() - 1 {
                assert(r[i] == m[i]);
            } else {
                assert(r[i] == m[i] && r[j] == m[j]);
            }
        }
        vstd::seq_lib::to_multiset_build(m, t.last());
        vstd::seq_lib::to_multiset_build(d, t.last());
        assert(t =~= d.push(t.last()));
    }
}

/// The stable sort puts the tags in order and keeps each of them.
pub proof fn lemma_sort_tags_in_order(s: Seq<TagView>)
    ensures
        tags_in_order(sort_tags_in_order(s)),
        sort_tags_in_order(s).to_multiset() == s.to_multiset(),
    decreases s.len(),
{
    broadcast use vstd::multiset::group_multiset_axioms;
    if s.len() > 0 {
        lemma_sort_tags_in_order(s.drop_last());
        lemma_insert_tag_sorted(sort_tags_in_order(s.drop_last()), s.last());
        vstd::seq_lib::to_multiset_build(s.drop_last(), s.last());
        assert(s =~= s.drop_last().push(s.last()));
    }
}

/// Grouping sorted tags gives one property per owner, in increasing owner
/// order, the last for the owner of the last tag.
pub proof fn lemma_group_properties(s: Seq<TagView>)
    requires
        tags_in_order(s),
    ensures
        properties_in_owner_order(spec_group_properties(s)),
        s.len() == 0 ==> spec_group_properties(s).len() == 0,
        s.len() > 0 ==> spec_group_properties(s).len() > 0 && spec_group_properties(s).last().owner
            == s.last().owner,
        forall|o: SalsaDocOwnerSummary|
            #[trigger] props_have_owner(spec_group_properties(s), o) == tags_have_owner(s, o),
    decreases s.len(),
{
    if s.len() > 0 {
        let d = s.drop_last();
        assert(tags_in_order(d)) by {
            assert forall|i: int, j: int| 0 <= i < j < d.len() implies spec_tag_key_le(#[trigger] d[i], #[trigger] d[j]) by {
                assert(d[i] == s[i] && d[j] == s[j]);
            }
        }
        lemma_group_properties(d);
        let prev = spec_group_properties(d);
        let t = s.last();
        let push_new = prev.len() == 0 || prev.last().owner != t.owner;
        let opened = if push_new {
            prev.push(DocPropertyView { owner: t.owner, entries: Seq::empty() })
        } else {
            prev
        };
        let last = opened.last();
        let g = opened.update(
            opened.len() - 1,
            DocPropertyView { owner: last.owner, entries: last.entries + spec_tag_entries(t) },
        );
        assert(spec_group_properties(s) == g);
        assert forall|k: int| 0 <= k < g.len() implies #[trigger] g[k].owner == opened[k].owner by {}
        if push_new && prev.len() > 0 {
            assert(prev.last().owner == d.last().owner);
            assert(spec_tag_key_le(s[s.len() - 2], s[s.len() - 1]));
            assert(spec_owner_lt(prev.last().owner, t.owner));
        }
        assert(properties_in_owner_order(g)) by {
            assert forall|i: int, j: int| 0 <= i < j < g.len() implies spec_owner_lt(#[trigger] g[i].owner, #[trigger] g[j].owner) by {
                assert(g[i].owner == opened[i].owner && g[j].owner == opened[j].owner);
                if push_new && j == opened.len() - 1 {
                    if i < prev.len() - 1 {
                        assert(spec_owner_lt(prev[i].owner, prev[prev.len() - 1].owner));
                        lemma_owner_order(prev[i].owner, prev.last().owner, t.owner);
                    }
                } else {
                    assert(opened[i] == prev[i] && opened[j] == prev[j]);
                }
            }
        }
        assert forall|o: SalsaDocOwnerSummary| #[trigger] props_have_owner(g, o) == tags_have_owner(s, o) by {
            assert(props_have_owner(prev, o) == tags_have_owner(d, o));
            if exists|k: int| 0 <= k < g.len() && #[trigger] g[k].owner == o {
                let k = choose|k: int| 0 <= k < g.len() && #[trigger] g[k].owner == o;
                if push_new && k == opened.len() - 1 {
                    assert(s[s.len() - 1].owner == o);
                } else {
                    assert(opened[k] == prev[k]);
                    assert(prev[k].owner == o);
                    let q = choose|q: int| 0 <= q < d.len() && #[trigger] d[q].owner == o;
                    assert(s[q] == d[q]);
                }
            }
            if exists|k: int| 0 <= k < s.len() && #[trigger] s[k].owner == o {
                let k = choose|k: int| 0 <= k < s.len() && #[trigger] s[k].owner == o;
                if k == s.len() - 1 {
                    if push_new {
                        assert(g[opened.len() - 1].owner == o);
                    } else {
                        assert(g[prev.len() - 1].owner == o);
                    }
                } else {
                    assert(d[k].owner == o);
                    let q = choose|q: int| 0 <= q < prev.len() && #[trigger] prev[q].owner == o;
                    assert(opened[q] == prev[q]);
                    assert(g[q].owner == o);
                }
            }
        }
    }
}

} // verus!
