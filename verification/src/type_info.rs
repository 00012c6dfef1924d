//! Type information gathered for declarations and members: candidate types,
//! initializers and the syntax they come from.
use vstd::prelude::*;

use emmylua_parser::LuaSyntaxKind;

verus! {

/// A syntax node named by its raw kind and the text range it covers.
#[derive(Clone, Copy, Debug, PartialEq, Eq, Structural)]
pub struct SalsaSyntaxIdSummary {
    pub kind: u16,
    pub start_offset: u32,
    pub end_offset: u32,
}

impl SalsaSyntaxIdSummary {
    pub open spec fn spec_contains_offset(self, offset: u32) -> bool {
        self.start_offset <= offset && offset < self.end_offset
    }

    pub open spec fn spec_span_len(self) -> int {
        if self.end_offset >= self.start_offset { self.end_offset - self.start_offset } else { 0 }
    }

    /// Whether the node's range covers `offset` (its end excluded).
    pub fn contains_offset(&self, offset: u32) -> (r: bool)
        ensures
            r == self.spec_contains_offset(offset),
    {
        self.start_offset <= offset && offset < self.end_offset
    }

    /// The length of the node's range.
    pub fn span_len(&self) -> (r: u32)
        ensures
            r == self.spec_span_len(),
    {
        if self.end_offset >= self.start_offset { self.end_offset - self.start_offset } else { 0 }
    }
}

/// The syntax kinds that the solver tells apart.
#[derive(Clone, Copy, Debug, PartialEq, Eq, Structural)]
pub enum LuaSyntaxKindClass {
    LiteralExpr,
    ClosureExpr,
    TableArrayExpr,
    TableObjectExpr,
    TableEmptyExpr,
    Other,
}

/// A raw kind that the parser's kind conversion accepts: a syntax kind (high bit
/// set) below the parser's count of syntax kinds, or a token kind below its count
/// of token kinds.
pub open spec fn spec_valid_raw_kind(raw: u16) -> bool {
    if raw >= 0x8000 { raw - 0x8000 < 122 } else { raw < 161 }
}

/// How the parser reads a raw kind, as its kind tables lay out the syntax kinds.
pub open spec fn spec_syntax_kind_class(raw: u16) -> LuaSyntaxKindClass {
    if raw == 0x8000 + 26 {
        LuaSyntaxKindClass::LiteralExpr
    } else if raw == 0x8000 + 27 {
        LuaSyntaxKindClass::ClosureExpr
    } else if raw == 0x8000 + 30 {
        LuaSyntaxKindClass::TableArrayExpr
    } else if raw == 0x8000 + 31 {
        LuaSyntaxKindClass::TableObjectExpr
    } else if raw == 0x8000 + 32 {
        LuaSyntaxKindClass::TableEmptyExpr
    } else {
        LuaSyntaxKindClass::Other
    }
}

/// Reads a raw kind with emmylua_parser's `LuaSyntaxKind::from(rowan::SyntaxKind)`.
/// The contract claims the parser's numbering: syntax kinds carry the high bit and
/// count from `None`, so `LiteralExpr` is 26, `ClosureExpr` 27 and the three table
/// expressions 30 to 32; every other kind, and every token kind, is none of these.
/// The conversion transmutes the raw value, so only valid raw kinds are passed.
#[verifier::external_body]
fn lua_syntax_kind_class(raw: u16) -> (r: LuaSyntaxKindClass)
    requires
        spec_valid_raw_kind(raw),
    ensures
        r == spec_syntax_kind_class(raw),
{
    match LuaSyntaxKind::from(rowan::SyntaxKind(raw)) {
        LuaSyntaxKind::LiteralExpr => LuaSyntaxKindClass::LiteralExpr,
        LuaSyntaxKind::ClosureExpr => LuaSyntaxKindClass::ClosureExpr,
        LuaSyntaxKind::TableArrayExpr => LuaSyntaxKindClass::TableArrayExpr,
        LuaSyntaxKind::TableObjectExpr => LuaSyntaxKindClass::TableObjectExpr,
        LuaSyntaxKind::TableEmptyExpr => LuaSyntaxKindClass::TableEmptyExpr,
        _ => LuaSyntaxKindClass::Other,
    }
}

/// An initializer of one of these kinds fixes a value's type: a literal, a
/// closure or a table constructor.
pub open spec fn spec_is_stable_initializer(syntax_id: Option<SalsaSyntaxIdSummary>) -> bool {
    match syntax_id {
        None => false,
        Some(id) => spec_valid_raw_kind(id.kind) && spec_syntax_kind_class(id.kind) != LuaSyntaxKindClass::Other,
    }
}

/// Whether the initializer's syntax is a literal, a closure or a table constructor.
/// A kind that the parser does not define is none of these.
pub fn has_stable_initializer_evidence(syntax_id: Option<SalsaSyntaxIdSummary>) -> (r: bool)
    ensures
        r == spec_is_stable_initializer(syntax_id),
{
    match syntax_id {
        None => false,
        Some(id) => {
            let valid = if id.kind >= 0x8000 { id.kind - 0x8000 < 122 } else { id.kind < 161 };
            if !valid {
                return false;
            }
            match lua_syntax_kind_class(id.kind) {
                LuaSyntaxKindClass::Other => false,
                _ => true,
            }
        },
    }
}

/// Where a candidate type of a value comes from.
#[derive(Clone, Copy, Debug, PartialEq, Eq, Structural)]
pub enum SalsaTypeCandidateOriginSummary {
    Decl(u32),
    GlobalFunction(u32),
    Member(u32),
    Property(u32),
    Assignment(u32),
}

/// One source of type information for a value.
#[derive(Clone, Debug, PartialEq, Eq)]
pub struct SalsaTypeCandidateSummary {
    pub origin: SalsaTypeCandidateOriginSummary,
    pub explicit_type_offsets: Vec<u32>,
    pub named_type_names: Vec<String>,
    pub initializer_offset: Option<u32>,
    pub value_expr_syntax_id: Option<SalsaSyntaxIdSummary>,
    pub value_result_index: usize,
    pub source_call_syntax_id: Option<SalsaSyntaxIdSummary>,
    pub signature_offset: Option<u32>,
}

/// The type information of a declaration.
#[derive(Clone, Debug, PartialEq, Eq)]
pub struct SalsaDeclTypeInfoSummary {
    pub decl_id: u32,
    pub name: String,
    pub explicit_type_offsets: Vec<u32>,
    pub named_type_names: Vec<String>,
    pub initializer_offset: Option<u32>,
    pub value_expr_syntax_id: Option<SalsaSyntaxIdSummary>,
    pub value_result_index: usize,
    pub source_call_syntax_id: Option<SalsaSyntaxIdSummary>,
    pub signature_offset: Option<u32>,
    pub value_signature_offset: Option<u32>,
}

/// The type information of a member, named by its target handle.
#[derive(Clone, Debug, PartialEq, Eq)]
pub struct SalsaMemberTypeInfoSummary {
    pub target: u32,
    pub candidates: Vec<SalsaTypeCandidateSummary>,
}

#[derive(Clone, Debug)]
pub struct SalsaDeclTypeQueryIndex {
    pub decls: Vec<SalsaDeclTypeInfoSummary>,
}

#[derive(Clone, Debug)]
pub struct SalsaMemberTypeQueryIndex {
    pub members: Vec<SalsaMemberTypeInfoSummary>,
}

impl crate::lookup::Keyed for SalsaDeclTypeInfoSummary {
    open spec fn key(&self) -> u32 { self.decl_id }
    fn get_key(&self) -> (k: u32) { self.decl_id }
}

impl crate::lookup::Keyed for SalsaMemberTypeInfoSummary {
    open spec fn key(&self) -> u32 { self.target }
    fn get_key(&self) -> (k: u32) { self.target }
}

/// The type information of the declaration `decl_id`: the first entry for it.
pub open spec fn spec_find_decl_type_info(index: SalsaDeclTypeQueryIndex, decl_id: u32) -> Option<SalsaDeclTypeInfoSummary> {
    crate::lookup::first_with_key(index.decls@, decl_id)
}

/// The type information of the member with target handle `target`: the first entry for it.
pub open spec fn spec_find_member_type_info(index: SalsaMemberTypeQueryIndex, target: u32) -> Option<SalsaMemberTypeInfoSummary> {
    crate::lookup::first_with_key(index.members@, target)
}

/// Finds the type information of the declaration `decl_id`.
pub fn find_decl_type_info(index: &SalsaDeclTypeQueryIndex, decl_id: u32) -> (r: Option<&SalsaDeclTypeInfoSummary>)
    ensures
        match r {
            Some(d) => spec_find_decl_type_info(*index, decl_id) == Some(*d),
            None => spec_find_decl_type_info(*index, decl_id).is_none(),
        },
{
    proof { crate::lookup::lemma_first_index_with_key(index.decls@, decl_id); }
    match crate::lookup::find_first_index(&index.decls, decl_id) {
        Some(i) => Some(&index.decls[i]),
        None => None,
    }
}

/// Finds the type information of the member with target handle `target`.
pub fn find_member_type_info(index: &SalsaMemberTypeQueryIndex, target: u32) -> (r: Option<&SalsaMemberTypeInfoSummary>)
    ensures
        match r {
            Some(m) => spec_find_member_type_info(*index, target) == Some(*m),
            None => spec_find_member_type_info(*index, target).is_none(),
        },
{
    proof { crate::lookup::lemma_first_index_with_key(index.members@, target); }
    match crate::lookup::find_first_index(&index.members, target) {
        Some(i) => Some(&index.members[i]),
        None => None,
    }
}

} // verus!
