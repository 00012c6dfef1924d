//! The places where a file uses names, members and calls, and how a use is found
//! by offset or by its syntax node.
use vstd::prelude::*;

use crate::type_info::SalsaSyntaxIdSummary;

verus! {

/// How a use touches what it names.
#[derive(Clone, Copy, Debug, PartialEq, Eq, Structural)]
pub enum SalsaUseSiteRoleSummary {
    Read,
    Write,
    CallCallee,
}

/// What a name refers to: a local declaration, or a global.
#[derive(Clone, Copy, Debug, PartialEq, Eq, Structural)]
pub enum SalsaNameUseResolutionSummary {
    LocalDecl(u32),
    Global,
}

#[derive(Clone, Copy, Debug, PartialEq, Eq, Structural)]
pub enum SalsaCallKindSummary {
    Normal,
    Require,
    Other,
}

/// A use of a name.
#[derive(Clone, Debug, PartialEq, Eq)]
pub struct SalsaNameUseSummary {
    pub syntax_offset: u32,
    pub syntax_id: SalsaSyntaxIdSummary,
    pub name: String,
    pub role: SalsaUseSiteRoleSummary,
    pub resolution: SalsaNameUseResolutionSummary,
}

/// A use of a member, named by its target handle.
#[derive(Clone, Copy, Debug, PartialEq, Eq, Structural)]
pub struct SalsaMemberUseSummary {
    pub syntax_offset: u32,
    pub syntax_id: SalsaSyntaxIdSummary,
    pub role: SalsaUseSiteRoleSummary,
    pub target: u32,
}

/// A call: what kind it is, how it is written, and what it calls where that is
/// known by name or by member.
#[derive(Clone, Debug)]
pub struct SalsaCallUseSummary {
    pub syntax_offset: u32,
    pub syntax_id: SalsaSyntaxIdSummary,
    pub kind: SalsaCallKindSummary,
    pub is_colon_call: bool,
    pub arg_count: usize,
    pub require_path: Option<String>,
    pub callee_name: Option<String>,
    pub callee_member: Option<u32>,
}

#[derive(Clone, Debug)]
pub struct SalsaUseSiteIndexSummary {
    pub names: Vec<SalsaNameUseSummary>,
    pub members: Vec<SalsaMemberUseSummary>,
    pub calls: Vec<SalsaCallUseSummary>,
}

/// A use placed at an offset and covering a syntax node.
pub trait UseSite {
    spec fn site_offset(&self) -> u32;

    spec fn site_syntax_id(&self) -> SalsaSyntaxIdSummary;

    fn get_site_offset(&self) -> (r: u32)
        ensures
            r == self.site_offset(),
    ;

    fn get_site_syntax_id(&self) -> (r: SalsaSyntaxIdSummary)
        ensures
            r == self.site_syntax_id(),
    ;
}

impl UseSite for SalsaNameUseSummary {
    open spec fn site_offset(&self) -> u32 { self.syntax_offset }
    open spec fn site_syntax_id(&self) -> SalsaSyntaxIdSummary { self.syntax_id }
    fn get_site_offset(&self) -> (r: u32) { self.syntax_offset }
    fn get_site_syntax_id(&self) -> (r: SalsaSyntaxIdSummary) { self.syntax_id }
}

impl UseSite for SalsaMemberUseSummary {
    open spec fn site_offset(&self) -> u32 { self.syntax_offset }
    open spec fn site_syntax_id(&self) -> SalsaSyntaxIdSummary { self.syntax_id }
    fn get_site_offset(&self) -> (r: u32) { self.syntax_offset }
    fn get_site_syntax_id(&self) -> (r: SalsaSyntaxIdSummary) { self.syntax_id }
}

impl UseSite for SalsaCallUseSummary {
    open spec fn site_offset(&self) -> u32 { self.syntax_offset }
    open spec fn site_syntax_id(&self) -> SalsaSyntaxIdSummary { self.syntax_id }
    fn get_site_offset(&self) -> (r: u32) { self.syntax_offset }
    fn get_site_syntax_id(&self) -> (r: SalsaSyntaxIdSummary) { self.syntax_id }
}

/// Index of the first use placed exactly at `offset`, or -1.
pub open spec fn first_use_at_index<T: UseSite>(s: Seq<T>, offset: u32) -> int
    decreases s.len(),
{
    if s.len() == 0 {
        -1
    } else if s[0].site_offset() == offset {
        0
    } else {
        let r = first_use_at_index(s.drop_first(), offset);
        if r == -1 { -1 } else { r + 1 }
    }
}

/// `a` is tighter than `b`: a shorter node, or as short and placed earlier.
pub open spec fn tighter_than<T: UseSite>(a: T, b: T) -> bool {
    ||| a.site_syntax_id().spec_span_len() < b.site_syntax_id().spec_span_len()
    ||| (a.site_syntax_id().spec_span_len() == b.site_syntax_id().spec_span_len() && a.site_offset()
        < b.site_offset())
}

/// Index of the tightest use whose node covers `offset` (of several equally
/// tight ones, the first listed), or -1.
pub open spec fn tightest_covering_index<T: UseSite>(s: Seq<T>, offset: u32) -> int
    decreases s.len(),
{
    if s.len() == 0 {
        -1
    } else {
        let before = tightest_covering_index(s.drop_last(), offset);
        let x = s.last();
        if x.site_syntax_id().spec_contains_offset(offset) && (before == -1 || tighter_than(x, s[before])) {
            s.len() - 1
        } else {
            before
        }
    }
}

/// The use at `offset`: the first placed exactly there, else the tightest whose
/// node covers it.
pub open spec fn use_at_index<T: UseSite>(s: Seq<T>, offset: u32) -> int {
    let exact = first_use_at_index(s, offset);
    if exact >= 0 { exact } else { tightest_covering_index(s, offset) }
}

/// Index of the first use whose node is `syntax_id`, or -1.
pub open spec fn first_use_with_syntax_id_index<T: UseSite>(s: Seq<T>, syntax_id: SalsaSyntaxIdSummary) -> int
    decreases s.len(),
{
    if s.len() == 0 {
        -1
    } else if s[0].site_syntax_id() == syntax_id {
        0
    } else {
        let r = first_use_with_syntax_id_index(s.drop_first(), syntax_id);
        if r == -1 { -1 } else { r + 1 }
    }
}

pub proof fn lemma_first_use_at_index<T: UseSite>(s: Seq<T>, offset: u32)
    ensures
        -1 <= first_use_at_index(s, offset) < s.len(),
        first_use_at_index(s, offset) >= 0 ==> s[first_use_at_index(s, offset)].site_offset() == offset,
        forall|j: int|
            0 <= j < s.len() && (first_use_at_index(s, offset) == -1 || j < first_use_at_index(s, offset))
                ==> s[j].site_offset() != offset,
    decreases s.len(),
{
    if s.len() > 0 && s[0].site_offset() != offset {
        lemma_first_use_at_index(s.drop_first(), offset);
        assert forall|j: int|
            0 <= j < s.len() && (first_use_at_index(s, offset) == -1 || j < first_use_at_index(s, offset))
                implies s[j].site_offset() != offset by {
            if j > 0 {
                assert(s[j] == s.drop_first()[j - 1]);
            }
        }
    }
}

pub proof fn lemma_first_use_with_syntax_id_index<T: UseSite>(s: Seq<T>, syntax_id: SalsaSyntaxIdSummary)
    ensures
        -1 <= first_use_with_syntax_id_index(s, syntax_id) < s.len(),
        first_use_with_syntax_id_index(s, syntax_id) >= 0 ==> s[first_use_with_syntax_id_index(
            s,
            syntax_id,
        )].site_syntax_id() == syntax_id,
        forall|j: int|
            0 <= j < s.len() && (first_use_with_syntax_id_index(s, syntax_id) == -1 || j
                < first_use_with_syntax_id_index(s, syntax_id)) ==> s[j].site_syntax_id() != syntax_id,
    decreases s.len(),
{
    if s.len() > 0 && s[0].site_syntax_id() != syntax_id {
        lemma_first_use_with_syntax_id_index(s.drop_first(), syntax_id);
        assert forall|j: int|
            0 <= j < s.len() && (first_use_with_syntax_id_index(s, syntax_id) == -1 || j
                < first_use_with_syntax_id_index(s, syntax_id)) implies s[j].site_syntax_id() != syntax_id by {
            if j > 0 {
                assert(s[j] == s.drop_first()[j - 1]);
            }
        }
    }
}

pub proof fn lemma_tightest_covering_index<T: UseSite>(s: Seq<T>, offset: u32)
    ensures
        -1 <= tightest_covering_index(s, offset) < s.len(),
    decreases s.len(),
{
    if s.len() > 0 {
        lemma_tightest_covering_index(s.drop_last(), offset);
    }
}

/// Finds the index of the use at `offset`: the first placed exactly there, else
/// the tightest whose node covers it.
pub fn find_use_index_at<T: UseSite>(v: &Vec<T>, offset: u32) -> (r: Option<usize>)
    ensures
        match r {
            Some(i) => i as int == use_at_index(v@, offset) && i < v@.len(),
            None => use_at_index(v@, offset) == -1,
        },
{
    proof { lemma_first_use_at_index(v@, offset); }
    let mut i: usize = 0;
    while i < v.len()
        invariant
            i <= v@.len(),
            forall|j: int| 0 <= j < i ==> v@[j].site_offset() != offset,
            -1 <= first_use_at_index(v@, offset) < v@.len(),
            first_use_at_index(v@, offset) >= 0 ==> v@[first_use_at_index(v@, offset)].site_offset() == offset,
            forall|j: int|
                0 <= j < v@.len() && (first_use_at_index(v@, offset) == -1 || j < first_use_at_index(v@, offset))
                    ==> v@[j].site_offset() != offset,
        decreases v@.len() - i,
    {
        if v[i].get_site_offset() == offset {
            return Some(i);
        }
        i = i + 1;
    }
    let mut best: Option<usize> = None;
    let mut k: usize = 0;
    while k < v.len()
        invariant
            k <= v@.len(),
            match best {
                Some(b) => b as int == tightest_covering_index(v@.take(k as int), offset) && b < k,
                None => tightest_covering_index(v@.take(k as int), offset) == -1,
            },
        decreases v@.len() - k,
    {
        proof {
            lemma_tightest_covering_index(v@.take(k as int), offset);
            assert(v@.take(k + 1).drop_last() =~= v@.take(k as int));
        }
        let id = v[k].get_site_syntax_id();
        if id.contains_offset(offset) {
            match best {
                None => {
                    best = Some(k);
                },
                Some(b) => {
                    let best_id = v[b].get_site_syntax_id();
                    let len_k = id.span_len();
                    let len_b = best_id.span_len();
                    if len_k < len_b || (len_k == len_b && v[k].get_site_offset() < v[b].get_site_offset()) {
                        best = Some(k);
                    }
                },
            }
        }
        k = k + 1;
    }
    proof {
        assert(v@.take(k as int) =~= v@);
    }
    best
}

/// Finds the index of the first use whose node is `syntax_id`.
pub fn find_use_index_by_syntax_id<T: UseSite>(v: &Vec<T>, syntax_id: SalsaSyntaxIdSummary) -> (r: Option<usize>)
    ensures
        match r {
            Some(i) => i as int == first_use_with_syntax_id_index(v@, syntax_id) && i < v@.len(),
            None => first_use_with_syntax_id_index(v@, syntax_id) == -1,
        },
{
    proof { lemma_first_use_with_syntax_id_index(v@, syntax_id); }
    let mut i: usize = 0;
    while i < v.len()
        invariant
            i <= v@.len(),
            forall|j: int| 0 <= j < i ==> v@[j].site_syntax_id() != syntax_id,
            -1 <= first_use_with_syntax_id_index(v@, syntax_id) < v@.len(),
            first_use_with_syntax_id_index(v@, syntax_id) >= 0 ==> v@[first_use_with_syntax_id_index(
                v@,
                syntax_id,
            )].site_syntax_id() == syntax_id,
            forall|j: int|
                0 <= j < v@.len() && (first_use_with_syntax_id_index(v@, syntax_id) == -1 || j
                    < first_use_with_syntax_id_index(v@, syntax_id)) ==> v@[j].site_syntax_id() != syntax_id,
        decreases v@.len() - i,
    {
        if v[i].get_site_syntax_id() == syntax_id {
            return Some(i);
        }
        i = i + 1;
    }
    None
}

pub fn clone_name_use(n: &SalsaNameUseSummary) -> (r: SalsaNameUseSummary)
    ensures
        r == *n,
{
    SalsaNameUseSummary {
        syntax_offset: n.syntax_offset,
        syntax_id: n.syntax_id,
        name: n.name.clone(),
        role: n.role,
        resolution: n.resolution,
    }
}

pub fn clone_opt_string(s: &Option<String>) -> (r: Option<String>)
    ensures
        r == *s,
{
    match s {
        Some(x) => Some(x.clone()),
        None => None,
    }
}

pub fn clone_call_use(c: &SalsaCallUseSummary) -> (r: SalsaCallUseSummary)
    ensures
        r == *c,
{
    SalsaCallUseSummary {
        syntax_offset: c.syntax_offset,
        syntax_id: c.syntax_id,
        kind: c.kind,
        is_colon_call: c.is_colon_call,
        arg_count: c.arg_count,
        require_path: clone_opt_string(&c.require_path),
        callee_name: clone_opt_string(&c.callee_name),
        callee_member: c.callee_member,
    }
}

pub open spec fn opt_at<T>(s: Seq<T>, i: int) -> Option<T> {
    if 0 <= i < s.len() { Some(s[i]) } else { None }
}

/// The call at `offset`: the first placed exactly there, else the tightest
/// whose node covers it.
pub fn find_call_use_at(use_sites: &SalsaUseSiteIndexSummary, syntax_offset: u32) -> (r: Option<
    SalsaCallUseSummary,
>)
    ensures
        r == opt_at(use_sites.calls@, use_at_index(use_sites.calls@, syntax_offset)),
{
    match find_use_index_at(&use_sites.calls, syntax_offset) {
        Some(i) => Some(clone_call_use(&use_sites.calls[i])),
        None => None,
    }
}

/// The name use at `offset`: the first placed exactly there, else the tightest
/// whose node covers it.
pub fn find_name_use_at(use_sites: &SalsaUseSiteIndexSummary, syntax_offset: u32) -> (r: Option<
    SalsaNameUseSummary,
>)
    ensures
        r == opt_at(use_sites.names@, use_at_index(use_sites.names@, syntax_offset)),
{
    match find_use_index_at(&use_sites.names, syntax_offset) {
        Some(i) => Some(clone_name_use(&use_sites.names[i])),
        None => None,
    }
}

/// The member use at `offset`: the first placed exactly there, else the
/// tightest whose node covers it.
pub fn find_member_use_at(use_sites: &SalsaUseSiteIndexSummary, syntax_offset: u32) -> (r: Option<
    SalsaMemberUseSummary,
>)
    ensures
        r == opt_at(use_sites.members@, use_at_index(use_sites.members@, syntax_offset)),
{
    match find_use_index_at(&use_sites.members, syntax_offset) {
        Some(i) => Some(use_sites.members[i]),
        None => None,
    }
}

} // verus!
