//! How signatures are explained to a call: each parameter with the `---@param`
//! tag that documents it, and the choice of the signatures that fit a call best
//! by how the call's arguments line up with their parameters.
use vstd::prelude::*;
use vstd::string::StrSliceExecFns;

use crate::doc_tag::SalsaDocParamSummary;
use crate::doc_type::{SalsaDocTypeLoweredIndex, SalsaDocTypeLoweredKind, SalsaDocTypeLoweredNode, find_lowered_doc_type_by_key};
use crate::lookup::{Keyed, find_first_index, first_with_key, lemma_first_index_with_key};
use crate::members::{SalsaMemberIndexSummary, build_member_full_name, spec_member_full_name};
use crate::signature_model::{
    SalsaDocTypeRef, SalsaSignatureIndexSummary, SalsaSignatureParamSummary, SalsaSignatureSummary,
    SalsaSignatureTypeExplainSummary,
};
use crate::lexical::{SalsaLexicalUseIndex, find_call_use_in_index};
use crate::uses::{SalsaCallUseSummary, opt_at, first_use_at_index};

verus! {

/// A parameter of a signature as a call sees it: its name, where it stands,
/// whether it is `...`, and the `---@param` tag that documents it (where it is
/// written, its doc type, and whether it is optional).
#[derive(Clone, Debug, PartialEq, Eq)]
pub struct SalsaSignatureParamExplainSummary {
    pub name: String,
    pub syntax_offset: u32,
    pub is_vararg: bool,
    pub doc_param_offset: Option<u32>,
    pub doc_type: Option<SalsaSignatureTypeExplainSummary>,
    pub is_nullable: bool,
}

/// A signature as a call sees it: where it starts, the name it is declared
/// under, whether it is declared with `:`, and its parameters explained.
#[derive(Clone, Debug, PartialEq, Eq)]
pub struct SalsaSignatureExplainSummary {
    pub signature_offset: u32,
    pub name: Option<String>,
    pub is_method: bool,
    pub params: Vec<SalsaSignatureParamExplainSummary>,
}

impl Keyed for SalsaDocParamSummary {
    open spec fn key(&self) -> u32 { self.syntax_offset }
    fn get_key(&self) -> (k: u32) { self.syntax_offset }
}

impl Keyed for SalsaSignatureExplainSummary {
    open spec fn key(&self) -> u32 { self.signature_offset }
    fn get_key(&self) -> (k: u32) { self.signature_offset }
}

/// A `---@param` tag documents parameter `p`: it names it, or both are `...`.
pub open spec fn doc_param_matches(d: SalsaDocParamSummary, p: SalsaSignatureParamSummary) -> bool {
    d.name@ == p.name@ || (p.is_vararg && d.is_vararg)
}

/// The first tag among those at `offsets` (each the first tag written there)
/// that documents `p`.
pub open spec fn spec_doc_param_for(
    offsets: Seq<u32>,
    docs: Seq<SalsaDocParamSummary>,
    p: SalsaSignatureParamSummary,
) -> Option<SalsaDocParamSummary>
    decreases offsets.len(),
{
    if offsets.len() == 0 {
        None
    } else {
        match first_with_key(docs, offsets[0]) {
            Some(d) => if doc_param_matches(d, p) {
                Some(d)
            } else {
                spec_doc_param_for(offsets.drop_first(), docs, p)
            },
            None => spec_doc_param_for(offsets.drop_first(), docs, p),
        }
    }
}

/// The doc type of a tag: a reference to its node, or incomplete.
pub open spec fn doc_param_type(d: SalsaDocParamSummary) -> SalsaSignatureTypeExplainSummary {
    SalsaSignatureTypeExplainSummary {
        type_ref: match d.type_offset {
            Some(t) => SalsaDocTypeRef::Node(t),
            None => SalsaDocTypeRef::Incomplete,
        },
    }
}

/// Parameter `p` of `signature` explained with the tag that documents it.
pub open spec fn spec_param_explain(
    p: SalsaSignatureParamSummary,
    signature: SalsaSignatureSummary,
    docs: Seq<SalsaDocParamSummary>,
) -> SalsaSignatureParamExplainSummary {
    let d = spec_doc_param_for(signature.doc_param_offsets@, docs, p);
    SalsaSignatureParamExplainSummary {
        name: p.name,
        syntax_offset: p.syntax_offset,
        is_vararg: p.is_vararg,
        doc_param_offset: match d {
            Some(d) => Some(d.syntax_offset),
            None => None,
        },
        doc_type: match d {
            Some(d) => Some(doc_param_type(d)),
            None => None,
        },
        is_nullable: match d {
            Some(d) => d.is_nullable,
            None => false,
        },
    }
}

/// Parameter `param` of `signature` explained with the `---@param` tag that
/// documents it: the first of the signature's tags, in their order, that names
/// it (or, for `...`, documents `...`).
pub fn build_param_explain(
    param: &SalsaSignatureParamSummary,
    signature: &SalsaSignatureSummary,
    doc_params: &Vec<SalsaDocParamSummary>,
) -> (r: SalsaSignatureParamExplainSummary)
    ensures
        r == spec_param_explain(*param, *signature, doc_params@),
{
    let offsets = &signature.doc_param_offsets;
    let mut found: Option<usize> = None;
    let mut i: usize = 0;
    assert(offsets@.skip(0) =~= offsets@);
    while i < offsets.len() && found.is_none()
        invariant
            i <= offsets@.len(),
            found.is_none() ==> spec_doc_param_for(offsets@, doc_params@, *param) == spec_doc_param_for(
                offsets@.skip(i as int),
                doc_params@,
                *param,
            ),
            match found {
                Some(k) => k < doc_params@.len() && spec_doc_param_for(offsets@, doc_params@, *param) == Some(doc_params@[k as int]),
                None => true,
            },
        decreases offsets@.len() - i,
    {
        assert(offsets@.skip(i as int).drop_first() =~= offsets@.skip(i + 1));
        assert(offsets@.skip(i as int)[0] == offsets@[i as int]);
        proof { lemma_first_index_with_key(doc_params@, offsets@[i as int]); }
        match find_first_index(doc_params, offsets[i]) {
            Some(k) => {
                let d = &doc_params[k];
                if d.name == param.name || (param.is_vararg && d.is_vararg) {
                    found = Some(k);
                }
            },
            None => {},
        }
        i = i + 1;
    }
    let ghost d = spec_doc_param_for(signature.doc_param_offsets@, doc_params@, *param);
    match found {
        Some(k) => {
            let doc = &doc_params[k];
            assert(d == Some(*doc));
            SalsaSignatureParamExplainSummary {
                name: param.name.clone(),
                syntax_offset: param.syntax_offset,
                is_vararg: param.is_vararg,
                doc_param_offset: Some(doc.syntax_offset),
                doc_type: Some(
                    SalsaSignatureTypeExplainSummary {
                        type_ref: match doc.type_offset {
                            Some(t) => SalsaDocTypeRef::Node(t),
                            None => SalsaDocTypeRef::Incomplete,
                        },
                    },
                ),
                is_nullable: doc.is_nullable,
            }
        },
        None => {
            assert(offsets@.skip(i as int).len() == 0);
            SalsaSignatureParamExplainSummary {
                name: param.name.clone(),
                syntax_offset: param.syntax_offset,
                is_vararg: param.is_vararg,
                doc_param_offset: None,
                doc_type: None,
                is_nullable: false,
            }
        },
    }
}

/// `r` is `signature` explained: its offset, name and form, and each parameter
/// with the tag that documents it.
pub open spec fn is_signature_explain_of(
    r: SalsaSignatureExplainSummary,
    signature: SalsaSignatureSummary,
    docs: Seq<SalsaDocParamSummary>,
) -> bool {
    &&& r.signature_offset == signature.syntax_offset
    &&& r.name == signature.name
    &&& r.is_method == signature.is_method
    &&& r.params@ == signature.params@.map_values(|p: SalsaSignatureParamSummary| spec_param_explain(p, signature, docs))
}

/// A signature explained.
pub fn build_signature_explain(signature: &SalsaSignatureSummary, doc_params: &Vec<SalsaDocParamSummary>) -> (r:
    SalsaSignatureExplainSummary)
    ensures
        is_signature_explain_of(r, *signature, doc_params@),
{
    let ghost want = signature.params@.map_values(|p: SalsaSignatureParamSummary| spec_param_explain(p, *signature, doc_params@));
    let mut params: Vec<SalsaSignatureParamExplainSummary> = Vec::new();
    let mut i: usize = 0;
    while i < signature.params.len()
        invariant
            i <= signature.params@.len(),
            want == signature.params@.map_values(|p: SalsaSignatureParamSummary| spec_param_explain(p, *signature, doc_params@)),
            params@ == want.take(i as int),
        decreases signature.params@.len() - i,
    {
        let e = build_param_explain(&signature.params[i], signature, doc_params);
        params.push(e);
        assert(want.take(i + 1) =~= want.take(i as int).push(want[i as int]));
        i = i + 1;
    }
    assert(want.take(i as int) =~= want);
    let name = match &signature.name {
        Some(n) => Some(n.clone()),
        None => None,
    };
    SalsaSignatureExplainSummary { signature_offset: signature.syntax_offset, name, is_method: signature.is_method, params }
}

/// Every signature of the file explained, in order.
pub fn build_signature_explains(signatures_index: &SalsaSignatureIndexSummary, doc_params: &Vec<SalsaDocParamSummary>) -> (r:
    Vec<SalsaSignatureExplainSummary>)
    ensures
        r@.len() == signatures_index.signatures@.len(),
        forall|i: int| 0 <= i < r@.len() ==> #[trigger] is_signature_explain_of(
            r@[i],
            signatures_index.signatures@[i],
            doc_params@,
        ),
{
    let mut r: Vec<SalsaSignatureExplainSummary> = Vec::new();
    let mut i: usize = 0;
    while i < signatures_index.signatures.len()
        invariant
            i <= signatures_index.signatures@.len(),
            r@.len() == i,
            forall|k: int| 0 <= k < i ==> #[trigger] is_signature_explain_of(r@[k], signatures_index.signatures@[k], doc_params@),
        decreases signatures_index.signatures@.len() - i,
    {
        let e = build_signature_explain(&signatures_index.signatures[i], doc_params);
        r.push(e);
        i = i + 1;
    }
    r
}

/// Finds the explanation of the signature at `signature_offset`: the first one there.
pub fn find_signature_explain_at(signatures: &Vec<SalsaSignatureExplainSummary>, signature_offset: u32) -> (r: Option<
    &SalsaSignatureExplainSummary,
>)
    ensures
        match r {
            Some(x) => first_with_key(signatures@, signature_offset) == Some(*x),
            None => first_with_key(signatures@, signature_offset).is_none(),
        },
{
    proof { lemma_first_index_with_key(signatures@, signature_offset); }
    match find_first_index(signatures, signature_offset) {
        Some(i) => Some(&signatures[i]),
        None => None,
    }
}

/// Character `c` is the lowercase ASCII letter `t`, ignoring ASCII case.
pub open spec fn char_matches(c: char, t: char) -> bool {
    c == t || (c as u32) + 32 == (t as u32)
}

/// `s` spells the lowercase ASCII word `w`, ignoring ASCII case.
pub open spec fn word_ignoring_case(s: Seq<char>, w: Seq<char>) -> bool {
    s.len() == w.len() && forall|i: int| 0 <= i < s.len() ==> char_matches(#[trigger] s[i], w[i])
}

/// A type name that says nothing of the type: `any` or `unknown`, in any case.
pub open spec fn any_like_name(s: Seq<char>) -> bool {
    word_ignoring_case(s, seq!['a', 'n', 'y']) || word_ignoring_case(s, seq!['u', 'n', 'k', 'n', 'o', 'w', 'n'])
}

/// A parameter's doc type says nothing of the type: its lowered node is
/// unknown, or a name that is `any` or `unknown` in any case.
pub open spec fn spec_any_like(t: SalsaSignatureTypeExplainSummary, lowered: Seq<SalsaDocTypeLoweredNode>) -> bool {
    match t.type_ref {
        SalsaDocTypeRef::Node(k) => match first_with_key(lowered, k) {
            Some(n) => match n.kind {
                SalsaDocTypeLoweredKind::Unknown => true,
                SalsaDocTypeLoweredKind::Name { name } => any_like_name(name@),
                _ => false,
            },
            None => false,
        },
        SalsaDocTypeRef::Incomplete => false,
    }
}

fn char_matches_exec(c: char, t: char) -> (r: bool)
    ensures
        r == char_matches(c, t),
{
    c == t || (c as u32) + 32 == (t as u32)
}

fn is_any_like_name(name: &String) -> (r: bool)
    ensures
        r == any_like_name(name@),
{
    let s = name.as_str();
    let n = s.unicode_len();
    if n == 3 {
        let ok = char_matches_exec(s.get_char(0), 'a') && char_matches_exec(s.get_char(1), 'n') && char_matches_exec(
            s.get_char(2),
            'y',
        );
        proof {
            let w = seq!['a', 'n', 'y'];
            if ok {
                assert forall|i: int| 0 <= i < name@.len() implies char_matches(#[trigger] name@[i], w[i]) by {
                    assert(i == 0 || i == 1 || i == 2);
                }
            }
            if word_ignoring_case(name@, w) {
                assert(char_matches(name@[0], w[0]) && char_matches(name@[1], w[1]) && char_matches(name@[2], w[2]));
            }
            assert(!word_ignoring_case(name@, seq!['u', 'n', 'k', 'n', 'o', 'w', 'n']));
        }
        ok
    } else if n == 7 {
        let ok = char_matches_exec(s.get_char(0), 'u') && char_matches_exec(s.get_char(1), 'n') && char_matches_exec(
            s.get_char(2),
            'k',
        ) && char_matches_exec(s.get_char(3), 'n') && char_matches_exec(s.get_char(4), 'o') && char_matches_exec(
            s.get_char(5),
            'w',
        ) && char_matches_exec(s.get_char(6), 'n');
        proof {
            let w = seq!['u', 'n', 'k', 'n', 'o', 'w', 'n'];
            if ok {
                assert forall|i: int| 0 <= i < name@.len() implies char_matches(#[trigger] name@[i], w[i]) by {
                    assert(0 <= i < 7);
                }
            }
            if word_ignoring_case(name@, w) {
                assert(char_matches(name@[0], w[0]) && char_matches(name@[1], w[1]) && char_matches(name@[2], w[2]));
                assert(char_matches(name@[3], w[3]) && char_matches(name@[4], w[4]) && char_matches(name@[5], w[5]));
                assert(char_matches(name@[6], w[6]));
            }
            assert(!word_ignoring_case(name@, seq!['a', 'n', 'y']));
        }
        ok
    } else {
        false
    }
}

/// Whether a parameter's doc type says nothing of the type.
pub fn signature_type_is_any_like(doc_type: &SalsaSignatureTypeExplainSummary, lowered_types: &SalsaDocTypeLoweredIndex) -> (r:
    bool)
    ensures
        r == spec_any_like(*doc_type, lowered_types.types@),
{
    match doc_type.type_ref {
        SalsaDocTypeRef::Node(k) => match find_lowered_doc_type_by_key(lowered_types, k) {
            Some(n) => match &n.kind {
                SalsaDocTypeLoweredKind::Unknown => true,
                SalsaDocTypeLoweredKind::Name { name } => is_any_like_name(name),
                _ => false,
            },
            None => false,
        },
        SalsaDocTypeRef::Incomplete => false,
    }
}

/// The number of arguments a call passes to a signature's parameters: a call
/// with `.` to a method passes its first argument as `self`, a call with `:` to
/// a plain function passes the receiver as an extra first argument.
pub open spec fn spec_adjusted_arg_count(is_method: bool, is_colon_call: bool, arg_count: usize) -> usize {
    if is_method && !is_colon_call {
        if arg_count == 0 { 0 } else { (arg_count - 1) as usize }
    } else if !is_method && is_colon_call {
        if arg_count == usize::MAX { usize::MAX } else { (arg_count + 1) as usize }
    } else {
        arg_count
    }
}

/// The number of arguments a call passes to the parameters of `signature`.
pub fn signature_call_adjusted_arg_count(signature: &SalsaSignatureExplainSummary, is_colon_call: bool, arg_count: usize) -> (r:
    usize)
    ensures
        r == spec_adjusted_arg_count(signature.is_method, is_colon_call, arg_count),
{
    if signature.is_method && !is_colon_call {
        arg_count.saturating_sub(1)
    } else if !signature.is_method && is_colon_call {
        arg_count.saturating_add(1)
    } else {
        arg_count
    }
}

/// The parameter that argument `arg_index` of a call goes to, if any.
pub open spec fn spec_call_param_index(is_method: bool, is_colon_call: bool, arg_index: usize) -> Option<usize> {
    if is_method && !is_colon_call {
        if arg_index == 0 { None } else { Some((arg_index - 1) as usize) }
    } else if !is_method && is_colon_call {
        if arg_index == usize::MAX { None } else { Some((arg_index + 1) as usize) }
    } else {
        Some(arg_index)
    }
}

/// The parameter of `signature` that argument `arg_index` of a call goes to.
pub fn signature_call_param_index(signature: &SalsaSignatureExplainSummary, is_colon_call: bool, arg_index: usize) -> (r:
    Option<usize>)
    ensures
        r == spec_call_param_index(signature.is_method, is_colon_call, arg_index),
{
    if signature.is_method && !is_colon_call {
        arg_index.checked_sub(1)
    } else if !signature.is_method && is_colon_call {
        arg_index.checked_add(1)
    } else {
        Some(arg_index)
    }
}

/// How many of the parameters carry a doc type.
pub open spec fn typed_count(ps: Seq<SalsaSignatureParamExplainSummary>) -> nat
    decreases ps.len(),
{
    if ps.len() == 0 {
        0
    } else {
        typed_count(ps.drop_last()) + if ps.last().doc_type is Some { 1nat } else { 0nat }
    }
}

/// How many of the parameters carry a doc type that says something of the type.
pub open spec fn specific_count(ps: Seq<SalsaSignatureParamExplainSummary>, lowered: Seq<SalsaDocTypeLoweredNode>) -> nat
    decreases ps.len(),
{
    if ps.len() == 0 {
        0
    } else {
        specific_count(ps.drop_last(), lowered) + match ps.last().doc_type {
            Some(t) => if spec_any_like(t, lowered) { 0nat } else { 1nat },
            None => 0nat,
        }
    }
}

/// A count kept in a byte: it stops at 255.
pub open spec fn capped(n: nat) -> u8 {
    if n > 255 { 255 } else { n as u8 }
}

/// Of the first `matched` parameters, how many carry a doc type and how many a
/// doc type that says something of the type, each kept in a byte.
pub open spec fn spec_doc_param_quality(
    ps: Seq<SalsaSignatureParamExplainSummary>,
    matched: int,
    lowered: Seq<SalsaDocTypeLoweredNode>,
) -> (u8, u8) {
    (capped(typed_count(ps.take(matched))), capped(specific_count(ps.take(matched), lowered)))
}

/// How well the documented parameters of `signature` among the first `matched` fit.
pub fn signature_call_doc_param_quality(
    signature: &SalsaSignatureExplainSummary,
    matched_non_vararg_params: usize,
    lowered_types: &SalsaDocTypeLoweredIndex,
) -> (r: (u8, u8))
    requires
        matched_non_vararg_params <= signature.params@.len(),
    ensures
        r == spec_doc_param_quality(signature.params@, matched_non_vararg_params as int, lowered_types.types@),
{
    let ghost ps = signature.params@;
    let mut typed: u8 = 0;
    let mut specific: u8 = 0;
    let mut i: usize = 0;
    while i < matched_non_vararg_params
        invariant
            i <= matched_non_vararg_params <= ps.len(),
            ps == signature.params@,
            typed == capped(typed_count(ps.take(i as int))),
            specific == capped(specific_count(ps.take(i as int), lowered_types.types@)),
        decreases matched_non_vararg_params - i,
    {
        assert(ps.take(i + 1).drop_last() =~= ps.take(i as int));
        assert(ps.take(i + 1).last() == ps[i as int]);
        if let Some(doc_type) = &signature.params[i].doc_type {
            typed = typed.saturating_add(1);
            if !signature_type_is_any_like(doc_type, lowered_types) {
                specific = specific.saturating_add(1);
            }
        }
        i = i + 1;
    }
    (typed, specific)
}

/// The score of `signature` for a call, higher fitting better, or none where
/// the call cannot reach it: too few arguments for a parameter that is neither
/// optional nor `...`, or too many without `...`. The score ranks, in turn: how
/// the argument count fits the parameters; whether the call's `:` matches the
/// signature's; whether the count is exact; how many of the matched parameters
/// carry a doc type that says something, then any doc type; and how many fixed
/// parameters are matched.
pub open spec fn spec_call_score(
    signature: SalsaSignatureExplainSummary,
    call: Option<SalsaCallUseSummary>,
    lowered: Seq<SalsaDocTypeLoweredNode>,
) -> Option<(u8, u8, u8, u8, u8, usize)> {
    match call {
        None => None,
        Some(call) => {
            let ps = signature.params@;
            let a = spec_adjusted_arg_count(signature.is_method, call.is_colon_call, call.arg_count) as int;
            let pc = ps.len() as int;
            let has_vararg = pc > 0 && ps[pc - 1].is_vararg;
            let fixed = if has_vararg { pc - 1 } else { pc };
            let mps = if a < pc { a } else { pc };
            if a < fixed && !(forall|i: int| a <= i < fixed ==> (#[trigger] ps[i]).is_nullable) {
                None
            } else if a < pc && !(forall|i: int| mps <= i < pc ==> (#[trigger] ps[i]).is_vararg || ps[i].is_nullable) {
                None
            } else if a > pc && !has_vararg {
                None
            } else {
                let missing = exists|i: int| mps <= i < pc && !(#[trigger] ps[i]).is_vararg;
                let class: u8 = if !has_vararg && a == pc {
                    6
                } else if a < pc && missing {
                    5
                } else if has_vararg && a == pc {
                    4
                } else if has_vararg && a == fixed {
                    3
                } else if has_vararg && a > fixed {
                    2
                } else {
                    1
                };
                let colon: u8 = if signature.is_method == call.is_colon_call { 1 } else { 0 };
                let exact: u8 = if a == pc { 1 } else { 0 };
                let matched = if a < fixed { a } else { fixed };
                let q = spec_doc_param_quality(ps, matched, lowered);
                Some((class, colon, exact, q.1, q.0, matched as usize))
            }
        },
    }
}

fn all_nullable(ps: &Vec<SalsaSignatureParamExplainSummary>, from: usize, to: usize) -> (r: bool)
    requires
        from <= to <= ps@.len(),
    ensures
        r == forall|i: int| from <= i < to ==> (#[trigger] ps@[i]).is_nullable,
{
    let mut i = from;
    while i < to
        invariant
            from <= i <= to <= ps@.len(),
            forall|k: int| from <= k < i ==> (#[trigger] ps@[k]).is_nullable,
        decreases to - i,
    {
        if !ps[i].is_nullable {
            return false;
        }
        i = i + 1;
    }
    true
}

fn all_vararg_or_nullable(ps: &Vec<SalsaSignatureParamExplainSummary>, from: usize) -> (r: bool)
    requires
        from <= ps@.len(),
    ensures
        r == forall|i: int| from <= i < ps@.len() ==> (#[trigger] ps@[i]).is_vararg || ps@[i].is_nullable,
{
    let mut i = from;
    while i < ps.len()
        invariant
            from <= i <= ps@.len(),
            forall|k: int| from <= k < i ==> (#[trigger] ps@[k]).is_vararg || ps@[k].is_nullable,
        decreases ps@.len() - i,
    {
        if !(ps[i].is_vararg || ps[i].is_nullable) {
            return false;
        }
        i = i + 1;
    }
    true
}

fn any_non_vararg(ps: &Vec<SalsaSignatureParamExplainSummary>, from: usize) -> (r: bool)
    requires
        from <= ps@.len(),
    ensures
        r == exists|i: int| from <= i < ps@.len() && !(#[trigger] ps@[i]).is_vararg,
{
    let mut i = from;
    while i < ps.len()
        invariant
            from <= i <= ps@.len(),
            forall|k: int| from <= k < i ==> (#[trigger] ps@[k]).is_vararg,
        decreases ps@.len() - i,
    {
        if !ps[i].is_vararg {
            return true;
        }
        i = i + 1;
    }
    false
}

/// The score of `signature` for a call (see `spec_call_score`).
pub fn signature_call_candidate_score(
    signature: &SalsaSignatureExplainSummary,
    call: Option<&SalsaCallUseSummary>,
    lowered_types: &SalsaDocTypeLoweredIndex,
) -> (r: Option<(u8, u8, u8, u8, u8, usize)>)
    ensures
        r == spec_call_score(*signature, match call { Some(c) => Some(*c), None => None }, lowered_types.types@),
{
    let call = match call {
        Some(c) => c,
        None => return None,
    };
    let ps = &signature.params;
    let a = signature_call_adjusted_arg_count(signature, call.is_colon_call, call.arg_count);
    let pc = ps.len();
    let has_vararg = pc > 0 && ps[pc - 1].is_vararg;
    let fixed = if has_vararg { pc - 1 } else { pc };
    let mps = if a < pc { a } else { pc };
    if a < fixed && !all_nullable(ps, a, fixed) {
        return None;
    }
    if a < pc && !all_vararg_or_nullable(ps, mps) {
        return None;
    }
    if a > pc && !has_vararg {
        return None;
    }
    let missing = any_non_vararg(ps, mps);
    let class: u8 = if !has_vararg && a == pc {
        6
    } else if a < pc && missing {
        5
    } else if has_vararg && a == pc {
        4
    } else if has_vararg && a == fixed {
        3
    } else if has_vararg && a > fixed {
        2
    } else {
        1
    };
    let colon: u8 = if signature.is_method == call.is_colon_call { 1 } else { 0 };
    let exact: u8 = if a == pc { 1 } else { 0 };
    let matched = if a < fixed { a } else { fixed };
    let q = signature_call_doc_param_quality(signature, matched, lowered_types);
    Some((class, colon, exact, q.1, q.0, matched))
}

/// Score `a` ranks below score `b`: compared part by part, in order.
pub open spec fn score_lt(a: (u8, u8, u8, u8, u8, usize), b: (u8, u8, u8, u8, u8, usize)) -> bool {
    ||| a.0 < b.0
    ||| (a.0 == b.0 && a.1 < b.1)
    ||| (a.0 == b.0 && a.1 == b.1 && a.2 < b.2)
    ||| (a.0 == b.0 && a.1 == b.1 && a.2 == b.2 && a.3 < b.3)
    ||| (a.0 == b.0 && a.1 == b.1 && a.2 == b.2 && a.3 == b.3 && a.4 < b.4)
    ||| (a.0 == b.0 && a.1 == b.1 && a.2 == b.2 && a.3 == b.3 && a.4 == b.4 && a.5 < b.5)
}

fn score_less(a: (u8, u8, u8, u8, u8, usize), b: (u8, u8, u8, u8, u8, usize)) -> (r: bool)
    ensures
        r == score_lt(a, b),
{
    if a.0 != b.0 {
        a.0 < b.0
    } else if a.1 != b.1 {
        a.1 < b.1
    } else if a.2 != b.2 {
        a.2 < b.2
    } else if a.3 != b.3 {
        a.3 < b.3
    } else if a.4 != b.4 {
        a.4 < b.4
    } else {
        a.5 < b.5
    }
}

fn score_equal(a: (u8, u8, u8, u8, u8, usize), b: (u8, u8, u8, u8, u8, usize)) -> (r: bool)
    ensures
        r == (a == b),
{
    a.0 == b.0 && a.1 == b.1 && a.2 == b.2 && a.3 == b.3 && a.4 == b.4 && a.5 == b.5
}

/// The running best of the selection loop: the best score seen so far and the
/// candidates that have it, in order.
pub open spec fn best_fold(
    cands: Seq<u32>,
    signatures: Seq<SalsaSignatureExplainSummary>,
    call: Option<SalsaCallUseSummary>,
    lowered: Seq<SalsaDocTypeLoweredNode>,
) -> (Option<(u8, u8, u8, u8, u8, usize)>, Seq<u32>)
    decreases cands.len(),
{
    if cands.len() == 0 {
        (None, Seq::empty())
    } else {
        let prev = best_fold(cands.drop_last(), signatures, call, lowered);
        let o = cands.last();
        match first_with_key(signatures, o) {
            None => prev,
            Some(sig) => match spec_call_score(sig, call, lowered) {
                None => prev,
                Some(sc) => match prev.0 {
                    Some(cb) => if score_lt(sc, cb) {
                        prev
                    } else if sc == cb {
                        (prev.0, prev.1.push(o))
                    } else {
                        (Some(sc), seq![o])
                    },
                    None => (Some(sc), seq![o]),
                },
            },
        }
    }
}

/// The score of candidate `o` for the call: that of the first signature at
/// `o`, if it scores.
pub open spec fn candidate_score(
    signatures: Seq<SalsaSignatureExplainSummary>,
    call: Option<SalsaCallUseSummary>,
    lowered: Seq<SalsaDocTypeLoweredNode>,
    o: u32,
) -> Option<(u8, u8, u8, u8, u8, usize)> {
    match first_with_key(signatures, o) {
        Some(sig) => spec_call_score(sig, call, lowered),
        None => None,
    }
}

/// Candidate `o` scores, and no candidate of `cands` scores higher.
pub open spec fn scores_highest(
    cands: Seq<u32>,
    signatures: Seq<SalsaSignatureExplainSummary>,
    call: Option<SalsaCallUseSummary>,
    lowered: Seq<SalsaDocTypeLoweredNode>,
    o: u32,
) -> bool {
    &&& candidate_score(signatures, call, lowered, o) is Some
    &&& forall|j: int|
        0 <= j < cands.len() && (#[trigger] candidate_score(signatures, call, lowered, cands[j])) is Some ==> !score_lt(
            candidate_score(signatures, call, lowered, o)->0,
            candidate_score(signatures, call, lowered, cands[j])->0,
        )
}

/// The candidates that score highest for the call, in their order; all of the
/// candidates where none scores.
pub open spec fn spec_best_candidates(
    cands: Seq<u32>,
    signatures: Seq<SalsaSignatureExplainSummary>,
    call: Option<SalsaCallUseSummary>,
    lowered: Seq<SalsaDocTypeLoweredNode>,
) -> Seq<u32> {
    let best = cands.filter(|o: u32| scores_highest(cands, signatures, call, lowered, o));
    if best.len() == 0 { cands } else { best }
}

/// What the running best holds: no score where no candidate scores; else the
/// highest score, which some candidate has, and the candidates with it.
proof fn lemma_best_fold(
    cands: Seq<u32>,
    signatures: Seq<SalsaSignatureExplainSummary>,
    call: Option<SalsaCallUseSummary>,
    lowered: Seq<SalsaDocTypeLoweredNode>,
)
    ensures
        ({
            let (m, best) = best_fold(cands, signatures, call, lowered);
            &&& match m {
                None => forall|j: int| 0 <= j < cands.len() ==> (#[trigger] candidate_score(signatures, call, lowered, cands[j])) is None,
                Some(m) => {
                    &&& exists|j: int| 0 <= j < cands.len() && (#[trigger] candidate_score(signatures, call, lowered, cands[j])) == Some(m)
                    &&& forall|j: int|
                        0 <= j < cands.len() && (#[trigger] candidate_score(signatures, call, lowered, cands[j])) is Some ==> !score_lt(
                            m,
                            candidate_score(signatures, call, lowered, cands[j])->0,
                        )
                },
            }
            &&& best == cands.filter(|o: u32| m is Some && candidate_score(signatures, call, lowered, o) == m)
        }),
    decreases cands.len(),
{
    reveal_with_fuel(Seq::filter, 2);
    if cands.len() > 0 {
        let c0 = cands.drop_last();
        lemma_best_fold(c0, signatures, call, lowered);
        let (m0, b0) = best_fold(c0, signatures, call, lowered);
        let (m, best) = best_fold(cands, signatures, call, lowered);
        let o = cands.last();
        assert forall|j: int| 0 <= j < c0.len() implies c0[j] == cands[j] by {}
        assert(cands[cands.len() - 1] == o);
        let f = |x: u32| m is Some && candidate_score(signatures, call, lowered, x) == m;
        let f0 = |x: u32| m0 is Some && candidate_score(signatures, call, lowered, x) == m0;
        if m != m0 {
            // A new highest score: no earlier candidate has it.
            assert forall|j: int| 0 <= j < c0.len() implies !f(#[trigger] c0[j]) by {
                assert(candidate_score(signatures, call, lowered, cands[j]) == candidate_score(signatures, call, lowered, c0[j]));
            }
            lemma_filter_none(c0, f);
        } else {
            assert(c0.filter(f) =~= c0.filter(f0)) by {
                assert(f =~= f0);
            }
        }
        if m is Some && m0 is None {
            assert forall|j: int| 0 <= j < c0.len() implies !f(#[trigger] c0[j]) by {
                assert(candidate_score(signatures, call, lowered, cands[j]) == candidate_score(signatures, call, lowered, c0[j]));
            }
            lemma_filter_none(c0, f);
        }
        match m {
            None => {
                assert forall|j: int| 0 <= j < cands.len() implies (#[trigger] candidate_score(signatures, call, lowered, cands[j])) is None by {
                    if j < c0.len() {
                        assert(candidate_score(signatures, call, lowered, c0[j]) is None);
                    }
                }
            },
            Some(mm) => {
                if candidate_score(signatures, call, lowered, o) == m {
                    assert(candidate_score(signatures, call, lowered, cands[cands.len() - 1]) == Some(mm));
                } else {
                    let j = choose|j: int| 0 <= j < c0.len() && (#[trigger] candidate_score(signatures, call, lowered, c0[j])) == Some(mm);
                    assert(candidate_score(signatures, call, lowered, cands[j]) == Some(mm));
                }
                assert forall|j: int|
                    0 <= j < cands.len() && (#[trigger] candidate_score(signatures, call, lowered, cands[j])) is Some implies !score_lt(
                        mm,
                        candidate_score(signatures, call, lowered, cands[j])->0,
                    ) by {
                    if j < c0.len() {
                        assert(candidate_score(signatures, call, lowered, c0[j]) is Some);
                    }
                }
            },
        }
    }
}

proof fn lemma_filter_none(s: Seq<u32>, f: spec_fn(u32) -> bool)
    requires
        forall|j: int| 0 <= j < s.len() ==> !f(#[trigger] s[j]),
    ensures
        s.filter(f) == Seq::<u32>::empty(),
    decreases s.len(),
{
    reveal_with_fuel(Seq::filter, 1);
    if s.len() > 0 {
        assert forall|j: int| 0 <= j < s.drop_last().len() implies !f(#[trigger] s.drop_last()[j]) by {
            assert(s.drop_last()[j] == s[j]);
        }
        lemma_filter_none(s.drop_last(), f);
        assert(!f(s[s.len() - 1]));
    }
}

/// The candidates that score highest are those with the running best's score.
proof fn lemma_best_fold_is_highest(
    cands: Seq<u32>,
    signatures: Seq<SalsaSignatureExplainSummary>,
    call: Option<SalsaCallUseSummary>,
    lowered: Seq<SalsaDocTypeLoweredNode>,
)
    ensures
        best_fold(cands, signatures, call, lowered).1 == cands.filter(
            |o: u32| scores_highest(cands, signatures, call, lowered, o),
        ),
{
    lemma_best_fold(cands, signatures, call, lowered);
    let m = best_fold(cands, signatures, call, lowered).0;
    let f = |x: u32| m is Some && candidate_score(signatures, call, lowered, x) == m;
    let g = |o: u32| scores_highest(cands, signatures, call, lowered, o);
    assert forall|k: int| 0 <= k < cands.len() implies f(#[trigger] cands[k]) == g(cands[k]) by {
        match m {
            None => {
                assert(candidate_score(signatures, call, lowered, cands[k]) is None);
            },
            Some(mm) => {
                let j = choose|j: int| 0 <= j < cands.len() && (#[trigger] candidate_score(signatures, call, lowered, cands[j])) == Some(mm);
                assert(candidate_score(signatures, call, lowered, cands[j]) is Some);
            },
        }
    }
    lemma_filter_agree(cands, f, g);
}

proof fn lemma_filter_agree(s: Seq<u32>, f: spec_fn(u32) -> bool, g: spec_fn(u32) -> bool)
    requires
        forall|k: int| 0 <= k < s.len() ==> f(#[trigger] s[k]) == g(s[k]),
    ensures
        s.filter(f) == s.filter(g),
    decreases s.len(),
{
    reveal_with_fuel(Seq::filter, 1);
    if s.len() > 0 {
        assert forall|k: int| 0 <= k < s.drop_last().len() implies f(#[trigger] s.drop_last()[k]) == g(s.drop_last()[k]) by {
            assert(s.drop_last()[k] == s[k]);
        }
        lemma_filter_agree(s.drop_last(), f, g);
        assert(f(s[s.len() - 1]) == g(s[s.len() - 1]));
    }
}

/// The candidate signatures that fit the call best (see `spec_best_candidates`).
pub fn select_best_candidate_signature_offsets(
    candidate_signature_offsets: &Vec<u32>,
    call: Option<&SalsaCallUseSummary>,
    signatures: &Vec<SalsaSignatureExplainSummary>,
    lowered_types: &SalsaDocTypeLoweredIndex,
) -> (r: Vec<u32>)
    ensures
        r@ == spec_best_candidates(
            candidate_signature_offsets@,
            signatures@,
            match call { Some(c) => Some(*c), None => None },
            lowered_types.types@,
        ),
{
    let ghost c = match call { Some(c) => Some(*c), None => None };
    let ghost cands = candidate_signature_offsets@;
    let mut best_score: Option<(u8, u8, u8, u8, u8, usize)> = None;
    let mut best: Vec<u32> = Vec::new();
    let mut i: usize = 0;
    assert(cands.take(0) =~= Seq::<u32>::empty());
    while i < candidate_signature_offsets.len()
        invariant
            i <= cands.len(),
            cands == candidate_signature_offsets@,
            c == match call { Some(c) => Some(*c), None => None },
            (best_score, best@) == best_fold(cands.take(i as int), signatures@, c, lowered_types.types@),
        decreases cands.len() - i,
    {
        assert(cands.take(i + 1).drop_last() =~= cands.take(i as int));
        assert(cands.take(i + 1).last() == cands[i as int]);
        let o = candidate_signature_offsets[i];
        let ghost prev_best = best@;
        match find_signature_explain_at(signatures, o) {
            None => {},
            Some(sig) => match signature_call_candidate_score(sig, call, lowered_types) {
                None => {},
                Some(sc) => match best_score {
                    Some(cb) => {
                        if score_less(sc, cb) {
                        } else if score_equal(sc, cb) {
                            best.push(o);
                        } else {
                            best_score = Some(sc);
                            best = Vec::new();
                            best.push(o);
                            assert(best@ =~= seq![o]);
                        }
                    },
                    None => {
                        best_score = Some(sc);
                        best = Vec::new();
                        best.push(o);
                        assert(best@ =~= seq![o]);
                    },
                },
            },
        }
        i = i + 1;
    }
    assert(cands.take(i as int) =~= cands);
    proof { lemma_best_fold_is_highest(cands, signatures@, c, lowered_types.types@); }
    if best.len() == 0 {
        let mut all: Vec<u32> = Vec::new();
        let mut k: usize = 0;
        while k < candidate_signature_offsets.len()
            invariant
                k <= cands.len(),
                cands == candidate_signature_offsets@,
                all@ == cands.take(k as int),
            decreases cands.len() - k,
        {
            all.push(candidate_signature_offsets[k]);
            assert(cands.take(k + 1) =~= cands.take(k as int).push(cands[k as int]));
            k = k + 1;
        }
        assert(cands.take(k as int) =~= cands);
        all
    } else {
        best
    }
}

/// The name a call's signatures are looked up under: the dotted full name of
/// the member it calls, else the name it calls, if any.
pub open spec fn spec_call_target_name(call: SalsaCallUseSummary, members: SalsaMemberIndexSummary) -> Option<Seq<char>> {
    match call.callee_member {
        Some(h) => {
            let i = first_member_with_handle(members.members@, h);
            if i >= 0 {
                Some(spec_member_full_name(members.members@[i].target@))
            } else {
                None
            }
        },
        None => match call.callee_name {
            Some(n) => Some(n@),
            None => None,
        },
    }
}

/// The position of the first member with target handle `h`, or -1.
pub open spec fn first_member_with_handle(s: Seq<crate::members::SalsaMemberSummary>, h: u32) -> int
    decreases s.len(),
{
    if s.len() == 0 {
        -1
    } else {
        let r = first_member_with_handle(s.drop_last(), h);
        if r >= 0 { r } else if s.last().target_handle == h { s.len() - 1 } else { -1 }
    }
}

/// The offsets of the signatures declared under `name`, in order.
pub open spec fn signatures_named(signatures: Seq<SalsaSignatureExplainSummary>, name: Seq<char>) -> Seq<u32>
    decreases signatures.len(),
{
    if signatures.len() == 0 {
        Seq::empty()
    } else {
        let rest = signatures_named(signatures.drop_last(), name);
        match signatures.last().name {
            Some(n) => if n@ == name { rest.push(signatures.last().signature_offset) } else { rest },
            None => rest,
        }
    }
}

/// The signatures a call may call: those declared under the name it calls.
pub open spec fn spec_candidate_signature_offsets(
    call: Option<SalsaCallUseSummary>,
    signatures: Seq<SalsaSignatureExplainSummary>,
    members: SalsaMemberIndexSummary,
) -> Seq<u32> {
    match call {
        None => Seq::empty(),
        Some(c) => match spec_call_target_name(c, members) {
            None => Seq::empty(),
            Some(n) => signatures_named(signatures, n),
        },
    }
}

fn find_member_with_handle(members: &SalsaMemberIndexSummary, h: u32) -> (r: Option<usize>)
    ensures
        match r {
            Some(i) => i as int == first_member_with_handle(members.members@, h) && i < members.members@.len(),
            None => first_member_with_handle(members.members@, h) == -1,
        },
{
    let ghost s = members.members@;
    let mut i: usize = 0;
    assert(s.take(0) =~= Seq::<crate::members::SalsaMemberSummary>::empty());
    while i < members.members.len()
        invariant
            i <= s.len(),
            s == members.members@,
            first_member_with_handle(s.take(i as int), h) == -1,
        decreases s.len() - i,
    {
        assert(s.take(i + 1).drop_last() =~= s.take(i as int));
        if members.members[i].target_handle == h {
            proof { lemma_first_member_prefix(s, h, i as int); }
            return Some(i);
        }
        i = i + 1;
    }
    assert(s.take(i as int) =~= s);
    None
}

proof fn lemma_first_member_prefix(s: Seq<crate::members::SalsaMemberSummary>, h: u32, i: int)
    requires
        0 <= i < s.len(),
        first_member_with_handle(s.take(i), h) == -1,
        s[i].target_handle == h,
    ensures
        first_member_with_handle(s, h) == i,
    decreases s.len(),
{
    if i < s.len() - 1 {
        assert(s.drop_last().take(i) =~= s.take(i));
        lemma_first_member_prefix(s.drop_last(), h, i);
    } else {
        assert(s.drop_last() =~= s.take(i));
    }
}

/// The signatures a call may call: those declared under the name it calls (the
/// dotted full name of a member it calls), in order.
pub fn collect_candidate_signature_offsets(
    call: Option<&SalsaCallUseSummary>,
    signatures: &Vec<SalsaSignatureExplainSummary>,
    members: &SalsaMemberIndexSummary,
) -> (r: Vec<u32>)
    ensures
        r@ == spec_candidate_signature_offsets(match call { Some(c) => Some(*c), None => None }, signatures@, *members),
{
    let call = match call {
        Some(c) => c,
        None => return Vec::new(),
    };
    let target: String = match call.callee_member {
        Some(h) => match find_member_with_handle(members, h) {
            Some(i) => build_member_full_name(&members.members[i].target),
            None => return Vec::new(),
        },
        None => match &call.callee_name {
            Some(n) => n.clone(),
            None => return Vec::new(),
        },
    };
    let ghost sigs = signatures@;
    let mut r: Vec<u32> = Vec::new();
    let mut i: usize = 0;
    assert(sigs.take(0) =~= Seq::<SalsaSignatureExplainSummary>::empty());
    while i < signatures.len()
        invariant
            i <= sigs.len(),
            sigs == signatures@,
            r@ == signatures_named(sigs.take(i as int), target@),
        decreases sigs.len() - i,
    {
        assert(sigs.take(i + 1).drop_last() =~= sigs.take(i as int));
        assert(sigs.take(i + 1).last() == sigs[i as int]);
        match &signatures[i].name {
            Some(n) => {
                if *n == target {
                    r.push(signatures[i].signature_offset);
                }
            },
            None => {},
        }
        i = i + 1;
    }
    assert(sigs.take(i as int) =~= sigs);
    r
}

/// How a call resolves: the signatures that fit it best among those declared
/// under the name it calls, and the signature it resolves to, the only such one
/// where there is exactly one.
pub open spec fn spec_call_resolution(
    call: Option<SalsaCallUseSummary>,
    signatures: Seq<SalsaSignatureExplainSummary>,
    members: SalsaMemberIndexSummary,
    lowered: Seq<SalsaDocTypeLoweredNode>,
) -> (Seq<u32>, Option<u32>) {
    let best = spec_best_candidates(spec_candidate_signature_offsets(call, signatures, members), signatures, call, lowered);
    (best, if best.len() == 1 { Some(best[0]) } else { None })
}

/// How the call at `call_offset` resolves (see `spec_call_resolution`), the call
/// found among the lexical uses of the file: the candidate signatures of its
/// explain and the one it resolves to.
pub fn resolve_call_signatures(
    lexical_uses: &SalsaLexicalUseIndex,
    call_offset: u32,
    signatures: &Vec<SalsaSignatureExplainSummary>,
    members: &SalsaMemberIndexSummary,
    lowered_types: &SalsaDocTypeLoweredIndex,
) -> (r: (Vec<u32>, Option<u32>))
    ensures
        (r.0@, r.1) == spec_call_resolution(
            opt_at(lexical_uses.call_uses@, first_use_at_index(lexical_uses.call_uses@, call_offset)),
            signatures@,
            *members,
            lowered_types.types@,
        ),
{
    let call = find_call_use_in_index(lexical_uses, call_offset);
    let all = collect_candidate_signature_offsets(call.as_ref(), signatures, members);
    let best = select_best_candidate_signature_offsets(&all, call.as_ref(), signatures, lowered_types);
    let resolved = if best.len() == 1 {
        Some(best[0])
    } else {
        None
    };
    (best, resolved)
}

} // verus!
