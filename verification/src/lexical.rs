//! All uses of a file in source order, and the references to a declaration, a
//! global name, a member or a callee.
use vstd::prelude::*;

use crate::type_info::SalsaSyntaxIdSummary;
use crate::uses::{
    SalsaCallKindSummary, SalsaCallUseSummary, SalsaMemberUseSummary, SalsaNameUseResolutionSummary,
    SalsaNameUseSummary, SalsaUseSiteIndexSummary, SalsaUseSiteRoleSummary, UseSite, clone_call_use,
    clone_name_use, clone_opt_string, find_use_index_at, find_use_index_by_syntax_id,
    first_use_at_index, first_use_with_syntax_id_index, lemma_first_use_at_index, opt_at, use_at_index,
};

verus! {

/// One use of any kind.
#[derive(Clone, Debug)]
pub enum SalsaLexicalUseSummary {
    Call {
        syntax_offset: u32,
        syntax_id: SalsaSyntaxIdSummary,
        kind: SalsaCallKindSummary,
        is_colon_call: bool,
        arg_count: usize,
        require_path: Option<String>,
        callee_name: Option<String>,
        callee_member: Option<u32>,
    },
    Name {
        syntax_offset: u32,
        syntax_id: SalsaSyntaxIdSummary,
        name: String,
        role: SalsaUseSiteRoleSummary,
        resolution: SalsaNameUseResolutionSummary,
    },
    Member {
        syntax_offset: u32,
        syntax_id: SalsaSyntaxIdSummary,
        role: SalsaUseSiteRoleSummary,
        target: u32,
    },
}

/// The uses of a file in source order, and its name, member and call uses
/// grouped for the reference queries.
#[derive(Clone, Debug)]
pub struct SalsaLexicalUseIndex {
    pub uses: Vec<SalsaLexicalUseSummary>,
    pub all_name_uses: Vec<SalsaNameUseSummary>,
    pub decl_name_uses: Vec<SalsaNameUseSummary>,
    pub global_name_uses: Vec<SalsaNameUseSummary>,
    pub member_uses: Vec<SalsaMemberUseSummary>,
    pub call_uses: Vec<SalsaCallUseSummary>,
}

impl UseSite for SalsaLexicalUseSummary {
    open spec fn site_offset(&self) -> u32 {
        match self {
            SalsaLexicalUseSummary::Call { syntax_offset, .. } => *syntax_offset,
            SalsaLexicalUseSummary::Name { syntax_offset, .. } => *syntax_offset,
            SalsaLexicalUseSummary::Member { syntax_offset, .. } => *syntax_offset,
        }
    }

    open spec fn site_syntax_id(&self) -> SalsaSyntaxIdSummary {
        match self {
            SalsaLexicalUseSummary::Call { syntax_id, .. } => *syntax_id,
            SalsaLexicalUseSummary::Name { syntax_id, .. } => *syntax_id,
            SalsaLexicalUseSummary::Member { syntax_id, .. } => *syntax_id,
        }
    }

    fn get_site_offset(&self) -> (r: u32) {
        match self {
            SalsaLexicalUseSummary::Call { syntax_offset, .. } => *syntax_offset,
            SalsaLexicalUseSummary::Name { syntax_offset, .. } => *syntax_offset,
            SalsaLexicalUseSummary::Member { syntax_offset, .. } => *syntax_offset,
        }
    }

    fn get_site_syntax_id(&self) -> (r: SalsaSyntaxIdSummary) {
        match self {
            SalsaLexicalUseSummary::Call { syntax_id, .. } => *syntax_id,
            SalsaLexicalUseSummary::Name { syntax_id, .. } => *syntax_id,
            SalsaLexicalUseSummary::Member { syntax_id, .. } => *syntax_id,
        }
    }
}

/// At one offset a member use comes first, then a name use, then a call.
pub open spec fn use_rank(u: SalsaLexicalUseSummary) -> int {
    match u {
        SalsaLexicalUseSummary::Member { .. } => 0,
        SalsaLexicalUseSummary::Name { .. } => 1,
        SalsaLexicalUseSummary::Call { .. } => 2,
    }
}

/// `a` may stand before `b` in source order.
pub open spec fn use_key_le(a: SalsaLexicalUseSummary, b: SalsaLexicalUseSummary) -> bool {
    ||| a.site_offset() < b.site_offset()
    ||| (a.site_offset() == b.site_offset() && use_rank(a) <= use_rank(b))
}

/// Inserts `x` into `t` after every element that may stand before it.
pub open spec fn insert_in_order(t: Seq<SalsaLexicalUseSummary>, x: SalsaLexicalUseSummary) -> Seq<
    SalsaLexicalUseSummary,
>
    decreases t.len(),
{
    if t.len() == 0 {
        seq![x]
    } else if use_key_le(t.last(), x) {
        t.push(x)
    } else {
        insert_in_order(t.drop_last(), x).push(t.last())
    }
}

/// Sorts uses by offset and kind, keeping the order of uses with equal keys.
pub open spec fn sort_in_order(s: Seq<SalsaLexicalUseSummary>) -> Seq<SalsaLexicalUseSummary>
    decreases s.len(),
{
    if s.len() == 0 {
        s
    } else {
        insert_in_order(sort_in_order(s.drop_last()), s.last())
    }
}

pub open spec fn call_as_use(c: SalsaCallUseSummary) -> SalsaLexicalUseSummary {
    SalsaLexicalUseSummary::Call {
        syntax_offset: c.syntax_offset,
        syntax_id: c.syntax_id,
        kind: c.kind,
        is_colon_call: c.is_colon_call,
        arg_count: c.arg_count,
        require_path: c.require_path,
        callee_name: c.callee_name,
        callee_member: c.callee_member,
    }
}

pub open spec fn name_as_use(n: SalsaNameUseSummary) -> SalsaLexicalUseSummary {
    SalsaLexicalUseSummary::Name {
        syntax_offset: n.syntax_offset,
        syntax_id: n.syntax_id,
        name: n.name,
        role: n.role,
        resolution: n.resolution,
    }
}

pub open spec fn member_as_use(m: SalsaMemberUseSummary) -> SalsaLexicalUseSummary {
    SalsaLexicalUseSummary::Member {
        syntax_offset: m.syntax_offset,
        syntax_id: m.syntax_id,
        role: m.role,
        target: m.target,
    }
}

/// The calls, then the names, then the members, as the use-site index lists them.
pub open spec fn spec_unordered_uses(sites: SalsaUseSiteIndexSummary) -> Seq<SalsaLexicalUseSummary> {
    sites.calls@.map_values(|c: SalsaCallUseSummary| call_as_use(c)) + sites.names@.map_values(
        |n: SalsaNameUseSummary| name_as_use(n),
    ) + sites.members@.map_values(|m: SalsaMemberUseSummary| member_as_use(m))
}

/// All uses of a file in source order: by offset, and at one offset a member
/// use, then a name use, then a call; uses with equal keys keep the order in
/// which the use-site index lists them.
pub open spec fn spec_lexical_uses(sites: SalsaUseSiteIndexSummary) -> Seq<SalsaLexicalUseSummary> {
    sort_in_order(spec_unordered_uses(sites))
}

pub open spec fn is_local_use(n: SalsaNameUseSummary) -> bool {
    n.resolution is LocalDecl
}

pub open spec fn is_global_use(n: SalsaNameUseSummary) -> bool {
    n.resolution is Global
}

/// The lexical index of a use-site index: its uses in source order, all its name
/// uses, those that resolve to a local declaration, those that resolve to a
/// global, its member uses and its calls.
pub open spec fn spec_lexical_index_of(index: SalsaLexicalUseIndex, sites: SalsaUseSiteIndexSummary) -> bool {
    &&& index.uses@ == spec_lexical_uses(sites)
    &&& index.all_name_uses@ == sites.names@
    &&& index.decl_name_uses@ == sites.names@.filter(|n: SalsaNameUseSummary| is_local_use(n))
    &&& index.global_name_uses@ == sites.names@.filter(|n: SalsaNameUseSummary| is_global_use(n))
    &&& index.member_uses@ == sites.members@
    &&& index.call_uses@ == sites.calls@
}

/// One step of a filter over a growing prefix.
pub proof fn lemma_filter_take_step<A>(s: Seq<A>, p: spec_fn(A) -> bool, i: int)
    requires
        0 <= i < s.len(),
    ensures
        s.take(i + 1).filter(p) == if p(s[i]) {
            s.take(i).filter(p).push(s[i])
        } else {
            s.take(i).filter(p)
        },
{
    reveal(Seq::filter);
    assert(s.take(i + 1).drop_last() =~= s.take(i));
    assert(s.take(i + 1).last() == s[i]);
}

/// Filtering by a stronger predicate after a weaker one is filtering by the stronger.
pub proof fn lemma_filter_filter<A>(s: Seq<A>, p: spec_fn(A) -> bool, q: spec_fn(A) -> bool)
    requires
        forall|x: A| #[trigger] q(x) ==> p(x),
    ensures
        s.filter(p).filter(q) == s.filter(q),
    decreases s.len(),
{
    reveal(Seq::filter);
    if s.len() > 0 {
        lemma_filter_filter(s.drop_last(), p, q);
        if p(s.last()) {
            assert(s.filter(p) == s.drop_last().filter(p).push(s.last()));
            assert(s.filter(p).drop_last() =~= s.drop_last().filter(p));
            assert(s.filter(p).last() == s.last());
        }
    }
}

/// Filtering twice is filtering by both predicates.
pub proof fn lemma_filter_and<A>(
    s: Seq<A>,
    p: spec_fn(A) -> bool,
    q: spec_fn(A) -> bool,
    both: spec_fn(A) -> bool,
)
    requires
        forall|x: A| #[trigger] both(x) == (p(x) && q(x)),
    ensures
        s.filter(p).filter(q) == s.filter(both),
    decreases s.len(),
{
    reveal(Seq::filter);
    if s.len() > 0 {
        lemma_filter_and(s.drop_last(), p, q, both);
        if p(s.last()) {
            assert(s.filter(p).drop_last() =~= s.drop_last().filter(p));
            assert(s.filter(p).last() == s.last());
        }
    }
}

/// Where `x` goes into `t`, found by walking back over the elements that must
/// stand after it.
pub proof fn lemma_insert_in_order_at(t: Seq<SalsaLexicalUseSummary>, x: SalsaLexicalUseSummary, p: int)
    requires
        0 <= p <= t.len(),
        forall|j: int| p <= j < t.len() ==> !use_key_le(#[trigger] t[j], x),
        p == 0 || use_key_le(t[p - 1], x),
    ensures
        insert_in_order(t, x) == t.insert(p, x),
    decreases t.len(),
{
    if t.len() == 0 {
        assert(t.insert(p, x) =~= seq![x]);
    } else if use_key_le(t.last(), x) {
        assert(p == t.len());
        assert(t.insert(p, x) =~= t.push(x));
    } else {
        lemma_insert_in_order_at(t.drop_last(), x, p);
        assert(t.drop_last().insert(p, x).push(t.last()) =~= t.insert(p, x));
    }
}

pub fn clone_lexical_use(u: &SalsaLexicalUseSummary) -> (r: SalsaLexicalUseSummary)
    ensures
        r == *u,
{
    match u {
        SalsaLexicalUseSummary::Call {
            syntax_offset,
            syntax_id,
            kind,
            is_colon_call,
            arg_count,
            require_path,
            callee_name,
            callee_member,
        } => SalsaLexicalUseSummary::Call {
            syntax_offset: *syntax_offset,
            syntax_id: *syntax_id,
            kind: *kind,
            is_colon_call: *is_colon_call,
            arg_count: *arg_count,
            require_path: clone_opt_string(require_path),
            callee_name: clone_opt_string(callee_name),
            callee_member: *callee_member,
        },
        SalsaLexicalUseSummary::Name { syntax_offset, syntax_id, name, role, resolution } =>
            SalsaLexicalUseSummary::Name {
            syntax_offset: *syntax_offset,
            syntax_id: *syntax_id,
            name: name.clone(),
            role: *role,
            resolution: *resolution,
        },
        SalsaLexicalUseSummary::Member { syntax_offset, syntax_id, role, target } =>
            SalsaLexicalUseSummary::Member {
            syntax_offset: *syntax_offset,
            syntax_id: *syntax_id,
            role: *role,
            target: *target,
        },
    }
}

fn rank_of(u: &SalsaLexicalUseSummary) -> (r: u8)
    ensures
        r == use_rank(*u),
{
    match u {
        SalsaLexicalUseSummary::Member { .. } => 0,
        SalsaLexicalUseSummary::Name { .. } => 1,
        SalsaLexicalUseSummary::Call { .. } => 2,
    }
}

fn key_le(a: &SalsaLexicalUseSummary, b: &SalsaLexicalUseSummary) -> (r: bool)
    ensures
        r == use_key_le(*a, *b),
{
    let oa = a.get_site_offset();
    let ob = b.get_site_offset();
    oa < ob || (oa == ob && rank_of(a) <= rank_of(b))
}

/// Inserts `x` after every use of `t` that may stand before it.
fn insert_use_in_order(t: &mut Vec<SalsaLexicalUseSummary>, x: SalsaLexicalUseSummary)
    ensures
        final(t)@ == insert_in_order(old(t)@, x),
{
    let mut p: usize = t.len();
    while p > 0 && !key_le(&t[p - 1], &x)
        invariant
            p <= t@.len(),
            forall|j: int| p <= j < t@.len() ==> !use_key_le(#[trigger] t@[j], x),
        decreases p,
    {
        p = p - 1;
    }
    proof { lemma_insert_in_order_at(t@, x, p as int); }
    t.insert(p, x);
}

fn unordered_uses(sites: &SalsaUseSiteIndexSummary) -> (r: Vec<SalsaLexicalUseSummary>)
    ensures
        r@ == spec_unordered_uses(*sites),
{
    let mut r: Vec<SalsaLexicalUseSummary> = Vec::new();
    let ghost calls = sites.calls@.map_values(|c: SalsaCallUseSummary| call_as_use(c));
    let ghost names = sites.names@.map_values(|n: SalsaNameUseSummary| name_as_use(n));
    let ghost members = sites.members@.map_values(|m: SalsaMemberUseSummary| member_as_use(m));
    let mut i: usize = 0;
    while i < sites.calls.len()
        invariant
            i <= sites.calls@.len(),
            calls == sites.calls@.map_values(|c: SalsaCallUseSummary| call_as_use(c)),
            r@ == calls.take(i as int),
        decreases sites.calls@.len() - i,
    {
        let c = clone_call_use(&sites.calls[i]);
        r.push(
            SalsaLexicalUseSummary::Call {
                syntax_offset: c.syntax_offset,
                syntax_id: c.syntax_id,
                kind: c.kind,
                is_colon_call: c.is_colon_call,
                arg_count: c.arg_count,
                require_path: c.require_path,
                callee_name: c.callee_name,
                callee_member: c.callee_member,
            },
        );
        i = i + 1;
        assert(r@ =~= calls.take(i as int));
    }
    assert(calls.take(i as int) =~= calls);
    let mut i: usize = 0;
    while i < sites.names.len()
        invariant
            i <= sites.names@.len(),
            names == sites.names@.map_values(|n: SalsaNameUseSummary| name_as_use(n)),
            r@ == calls + names.take(i as int),
        decreases sites.names@.len() - i,
    {
        let n = clone_name_use(&sites.names[i]);
        r.push(
            SalsaLexicalUseSummary::Name {
                syntax_offset: n.syntax_offset,
                syntax_id: n.syntax_id,
                name: n.name,
                role: n.role,
                resolution: n.resolution,
            },
        );
        i = i + 1;
        assert(r@ =~= calls + names.take(i as int));
    }
    assert(names.take(i as int) =~= names);
    let mut i: usize = 0;
    while i < sites.members.len()
        invariant
            i <= sites.members@.len(),
            members == sites.members@.map_values(|m: SalsaMemberUseSummary| member_as_use(m)),
            r@ == calls + names + members.take(i as int),
        decreases sites.members@.len() - i,
    {
        let m = sites.members[i];
        r.push(
            SalsaLexicalUseSummary::Member {
                syntax_offset: m.syntax_offset,
                syntax_id: m.syntax_id,
                role: m.role,
                target: m.target,
            },
        );
        i = i + 1;
        assert(r@ =~= calls + names + members.take(i as int));
    }
    assert(members.take(i as int) =~= members);
    r
}

fn clone_name_uses(v: &Vec<SalsaNameUseSummary>) -> (r: Vec<SalsaNameUseSummary>)
    ensures
        r@ == v@,
{
    let mut r: Vec<SalsaNameUseSummary> = Vec::new();
    let mut i: usize = 0;
    while i < v.len()
        invariant
            i <= v@.len(),
            r@ == v@.take(i as int),
        decreases v@.len() - i,
    {
        r.push(clone_name_use(&v[i]));
        i = i + 1;
        assert(r@ =~= v@.take(i as int));
    }
    assert(v@.take(i as int) =~= v@);
    r
}

fn clone_call_uses(v: &Vec<SalsaCallUseSummary>) -> (r: Vec<SalsaCallUseSummary>)
    ensures
        r@ == v@,
{
    let mut r: Vec<SalsaCallUseSummary> = Vec::new();
    let mut i: usize = 0;
    while i < v.len()
        invariant
            i <= v@.len(),
            r@ == v@.take(i as int),
        decreases v@.len() - i,
    {
        r.push(clone_call_use(&v[i]));
        i = i + 1;
        assert(r@ =~= v@.take(i as int));
    }
    assert(v@.take(i as int) =~= v@);
    r
}

/// Builds the lexical index of a file's use sites.
pub fn build_lexical_use_index(use_sites: &SalsaUseSiteIndexSummary) -> (r: SalsaLexicalUseIndex)
    ensures
        spec_lexical_index_of(r, *use_sites),
{
    let unordered = unordered_uses(use_sites);
    let mut uses: Vec<SalsaLexicalUseSummary> = Vec::new();
    let mut i: usize = 0;
    while i < unordered.len()
        invariant
            i <= unordered@.len(),
            uses@ == sort_in_order(unordered@.take(i as int)),
        decreases unordered@.len() - i,
    {
        proof {
            assert(unordered@.take(i + 1).drop_last() =~= unordered@.take(i as int));
        }
        insert_use_in_order(&mut uses, clone_lexical_use(&unordered[i]));
        i = i + 1;
    }
    assert(unordered@.take(i as int) =~= unordered@);

    let mut decl_name_uses: Vec<SalsaNameUseSummary> = Vec::new();
    let mut global_name_uses: Vec<SalsaNameUseSummary> = Vec::new();
    let ghost names = use_sites.names@;
    let mut k: usize = 0;
    while k < use_sites.names.len()
        invariant
            k <= names.len(),
            names == use_sites.names@,
            decl_name_uses@ == names.take(k as int).filter(|n: SalsaNameUseSummary| is_local_use(n)),
            global_name_uses@ == names.take(k as int).filter(|n: SalsaNameUseSummary| is_global_use(n)),
        decreases names.len() - k,
    {
        proof {
            lemma_filter_take_step(names, |n: SalsaNameUseSummary| is_local_use(n), k as int);
            lemma_filter_take_step(names, |n: SalsaNameUseSummary| is_global_use(n), k as int);
        }
        let name_use = &use_sites.names[k];
        match name_use.resolution {
            SalsaNameUseResolutionSummary::LocalDecl(_) => {
                decl_name_uses.push(clone_name_use(name_use));
            },
            SalsaNameUseResolutionSummary::Global => {
                global_name_uses.push(clone_name_use(name_use));
            },
        }
        k = k + 1;
    }
    assert(names.take(k as int) =~= names);

    SalsaLexicalUseIndex {
        uses,
        all_name_uses: clone_name_uses(&use_sites.names),
        decl_name_uses,
        global_name_uses,
        member_uses: use_sites.members.clone(),
        call_uses: clone_call_uses(&use_sites.calls),
    }
}

/// The use at `offset`: the first placed exactly there, else the tightest whose
/// node covers it.
pub fn find_lexical_use_at(lexical_uses: &SalsaLexicalUseIndex, syntax_offset: u32) -> (r: Option<
    SalsaLexicalUseSummary,
>)
    ensures
        r == opt_at(lexical_uses.uses@, use_at_index(lexical_uses.uses@, syntax_offset)),
{
    match find_use_index_at(&lexical_uses.uses, syntax_offset) {
        Some(i) => Some(clone_lexical_use(&lexical_uses.uses[i])),
        None => None,
    }
}

/// The first call whose node is `syntax_id`.
pub fn find_call_use_by_syntax_id(index: &SalsaLexicalUseIndex, syntax_id: SalsaSyntaxIdSummary) -> (r: Option<
    SalsaCallUseSummary,
>)
    ensures
        r == opt_at(index.call_uses@, first_use_with_syntax_id_index(index.call_uses@, syntax_id)),
{
    match find_use_index_by_syntax_id(&index.call_uses, syntax_id) {
        Some(i) => Some(clone_call_use(&index.call_uses[i])),
        None => None,
    }
}

/// The first name use whose node is `syntax_id`.
pub fn find_name_use_by_syntax_id(index: &SalsaLexicalUseIndex, syntax_id: SalsaSyntaxIdSummary) -> (r: Option<
    SalsaNameUseSummary,
>)
    ensures
        r == opt_at(index.all_name_uses@, first_use_with_syntax_id_index(index.all_name_uses@, syntax_id)),
{
    match find_use_index_by_syntax_id(&index.all_name_uses, syntax_id) {
        Some(i) => Some(clone_name_use(&index.all_name_uses[i])),
        None => None,
    }
}

/// The first member use whose node is `syntax_id`.
pub fn find_member_use_by_syntax_id(index: &SalsaLexicalUseIndex, syntax_id: SalsaSyntaxIdSummary) -> (r: Option<
    SalsaMemberUseSummary,
>)
    ensures
        r == opt_at(index.member_uses@, first_use_with_syntax_id_index(index.member_uses@, syntax_id)),
{
    match find_use_index_by_syntax_id(&index.member_uses, syntax_id) {
        Some(i) => Some(index.member_uses[i]),
        None => None,
    }
}

/// The first call placed exactly at `syntax_offset`.
pub fn find_call_use_in_index(index: &SalsaLexicalUseIndex, syntax_offset: u32) -> (r: Option<
    SalsaCallUseSummary,
>)
    ensures
        r == opt_at(index.call_uses@, first_use_at_index(index.call_uses@, syntax_offset)),
{
    proof { lemma_first_use_at_index(index.call_uses@, syntax_offset); }
    let mut i: usize = 0;
    while i < index.call_uses.len()
        invariant
            i <= index.call_uses@.len(),
            forall|j: int| 0 <= j < i ==> index.call_uses@[j].site_offset() != syntax_offset,
            -1 <= first_use_at_index(index.call_uses@, syntax_offset) < index.call_uses@.len(),
            first_use_at_index(index.call_uses@, syntax_offset) >= 0 ==> index.call_uses@[first_use_at_index(
                index.call_uses@,
                syntax_offset,
            )].site_offset() == syntax_offset,
            forall|j: int|
                0 <= j < index.call_uses@.len() && (first_use_at_index(index.call_uses@, syntax_offset) == -1
                    || j < first_use_at_index(index.call_uses@, syntax_offset)) ==> index.call_uses@[j].site_offset()
                    != syntax_offset,
        decreases index.call_uses@.len() - i,
    {
        if index.call_uses[i].syntax_offset == syntax_offset {
            return Some(clone_call_use(&index.call_uses[i]));
        }
        i = i + 1;
    }
    None
}

} // verus!

verus! {

/// The uses of names that resolve to the declaration `decl_id`, in order.
pub fn collect_decl_references_in_index(index: &SalsaLexicalUseIndex, decl_id: u32) -> (r: Vec<SalsaNameUseSummary>)
    ensures
        r@ == index.decl_name_uses@.filter(|u: SalsaNameUseSummary| u.resolution == SalsaNameUseResolutionSummary::LocalDecl(decl_id)),
{
    let ghost src = index.decl_name_uses@;
    let mut r: Vec<SalsaNameUseSummary> = Vec::new();
    let mut i: usize = 0;
    while i < index.decl_name_uses.len()
        invariant
            i <= src.len(),
            src == index.decl_name_uses@,
            r@ == src.take(i as int).filter(|u: SalsaNameUseSummary| u.resolution == SalsaNameUseResolutionSummary::LocalDecl(decl_id)),
        decreases src.len() - i,
    {
        proof { lemma_filter_take_step(src, |u: SalsaNameUseSummary| u.resolution == SalsaNameUseResolutionSummary::LocalDecl(decl_id), i as int); }
        let u = &index.decl_name_uses[i];
        if u.resolution == SalsaNameUseResolutionSummary::LocalDecl(decl_id) {
            r.push(clone_name_use(u));
        }
        i = i + 1;
    }
    assert(src.take(i as int) =~= src);
    r
}

/// The uses of the global `name`, in order.
pub fn collect_global_name_references_in_index(index: &SalsaLexicalUseIndex, name: &str) -> (r: Vec<SalsaNameUseSummary>)
    ensures
        r@ == index.global_name_uses@.filter(|u: SalsaNameUseSummary| u.name@ == name@),
{
    let wanted = name.to_owned();
    let ghost src = index.global_name_uses@;
    let mut r: Vec<SalsaNameUseSummary> = Vec::new();
    let mut i: usize = 0;
    while i < index.global_name_uses.len()
        invariant
            i <= src.len(),
            src == index.global_name_uses@,
            wanted@ == name@,
            r@ == src.take(i as int).filter(|u: SalsaNameUseSummary| u.name@ == name@),
        decreases src.len() - i,
    {
        proof { lemma_filter_take_step(src, |u: SalsaNameUseSummary| u.name@ == name@, i as int); }
        let u = &index.global_name_uses[i];
        if u.name == wanted {
            r.push(clone_name_use(u));
        }
        i = i + 1;
    }
    assert(src.take(i as int) =~= src);
    r
}

/// The name uses in `role`, in order.
pub fn collect_name_references_by_role_in_index(index: &SalsaLexicalUseIndex, role: &SalsaUseSiteRoleSummary) -> (r: Vec<SalsaNameUseSummary>)
    ensures
        r@ == index.all_name_uses@.filter(|u: SalsaNameUseSummary| u.role == *role),
{
    let ghost src = index.all_name_uses@;
    let mut r: Vec<SalsaNameUseSummary> = Vec::new();
    let mut i: usize = 0;
    while i < index.all_name_uses.len()
        invariant
            i <= src.len(),
            src == index.all_name_uses@,
            r@ == src.take(i as int).filter(|u: SalsaNameUseSummary| u.role == *role),
        decreases src.len() - i,
    {
        proof { lemma_filter_take_step(src, |u: SalsaNameUseSummary| u.role == *role, i as int); }
        let u = &index.all_name_uses[i];
        if u.role == *role {
            r.push(clone_name_use(u));
        }
        i = i + 1;
    }
    assert(src.take(i as int) =~= src);
    r
}

/// The uses of the member with target handle `member_target`, in order.
pub fn collect_member_references_in_index(index: &SalsaLexicalUseIndex, member_target: u32) -> (r: Vec<SalsaMemberUseSummary>)
    ensures
        r@ == index.member_uses@.filter(|u: SalsaMemberUseSummary| u.target == member_target),
{
    let ghost src = index.member_uses@;
    let mut r: Vec<SalsaMemberUseSummary> = Vec::new();
    let mut i: usize = 0;
    while i < index.member_uses.len()
        invariant
            i <= src.len(),
            src == index.member_uses@,
            r@ == src.take(i as int).filter(|u: SalsaMemberUseSummary| u.target == member_target),
        decreases src.len() - i,
    {
        proof { lemma_filter_take_step(src, |u: SalsaMemberUseSummary| u.target == member_target, i as int); }
        let u = &index.member_uses[i];
        if u.target == member_target {
            r.push(*u);
        }
        i = i + 1;
    }
    assert(src.take(i as int) =~= src);
    r
}

/// The member uses in `role`, in order.
pub fn collect_member_references_by_role_in_index(index: &SalsaLexicalUseIndex, role: &SalsaUseSiteRoleSummary) -> (r: Vec<SalsaMemberUseSummary>)
    ensures
        r@ == index.member_uses@.filter(|u: SalsaMemberUseSummary| u.role == *role),
{
    let ghost src = index.member_uses@;
    let mut r: Vec<SalsaMemberUseSummary> = Vec::new();
    let mut i: usize = 0;
    while i < index.member_uses.len()
        invariant
            i <= src.len(),
            src == index.member_uses@,
            r@ == src.take(i as int).filter(|u: SalsaMemberUseSummary| u.role == *role),
        decreases src.len() - i,
    {
        proof { lemma_filter_take_step(src, |u: SalsaMemberUseSummary| u.role == *role, i as int); }
        let u = &index.member_uses[i];
        if u.role == *role {
            r.push(*u);
        }
        i = i + 1;
    }
    assert(src.take(i as int) =~= src);
    r
}

/// The calls whose callee is the name `callee_name`, in order.
pub fn collect_call_references_for_name_in_index(index: &SalsaLexicalUseIndex, callee_name: &str) -> (r: Vec<SalsaCallUseSummary>)
    ensures
        r@ == index.call_uses@.filter(|u: SalsaCallUseSummary| u.callee_name matches Some(n) && n@ == callee_name@),
{
    let wanted = callee_name.to_owned();
    let ghost src = index.call_uses@;
    let mut r: Vec<SalsaCallUseSummary> = Vec::new();
    let mut i: usize = 0;
    while i < index.call_uses.len()
        invariant
            i <= src.len(),
            src == index.call_uses@,
            wanted@ == callee_name@,
            r@ == src.take(i as int).filter(|u: SalsaCallUseSummary| u.callee_name matches Some(n) && n@ == callee_name@),
        decreases src.len() - i,
    {
        proof { lemma_filter_take_step(src, |u: SalsaCallUseSummary| u.callee_name matches Some(n) && n@ == callee_name@, i as int); }
        let u = &index.call_uses[i];
        if callee_is(&u.callee_name, &wanted) {
            r.push(clone_call_use(u));
        }
        i = i + 1;
    }
    assert(src.take(i as int) =~= src);
    r
}

/// The calls whose callee is the member with target handle `member_target`, in order.
pub fn collect_call_references_for_member_in_index(index: &SalsaLexicalUseIndex, member_target: u32) -> (r: Vec<SalsaCallUseSummary>)
    ensures
        r@ == index.call_uses@.filter(|u: SalsaCallUseSummary| u.callee_member == Some(member_target)),
{
    let ghost src = index.call_uses@;
    let mut r: Vec<SalsaCallUseSummary> = Vec::new();
    let mut i: usize = 0;
    while i < index.call_uses.len()
        invariant
            i <= src.len(),
            src == index.call_uses@,
            r@ == src.take(i as int).filter(|u: SalsaCallUseSummary| u.callee_member == Some(member_target)),
        decreases src.len() - i,
    {
        proof { lemma_filter_take_step(src, |u: SalsaCallUseSummary| u.callee_member == Some(member_target), i as int); }
        let u = &index.call_uses[i];
        if u.callee_member == Some(member_target) {
            r.push(clone_call_use(u));
        }
        i = i + 1;
    }
    assert(src.take(i as int) =~= src);
    r
}

fn callee_is(callee: &Option<String>, name: &String) -> (r: bool)
    ensures
        r == (*callee matches Some(n) && n@ == name@),
{
    match callee {
        Some(n) => *n == *name,
        None => false,
    }
}

} // verus!

verus! {

/// The uses of names that resolve to the declaration `decl_id`, in order.
pub fn collect_decl_references(use_sites: &SalsaUseSiteIndexSummary, decl_id: u32) -> (r: Vec<
    SalsaNameUseSummary,
>)
    ensures
        r@ == use_sites.names@.filter(
            |u: SalsaNameUseSummary| u.resolution == SalsaNameUseResolutionSummary::LocalDecl(decl_id),
        ),
{
    let index = build_lexical_use_index(use_sites);
    proof {
        lemma_filter_filter(
            use_sites.names@,
            |n: SalsaNameUseSummary| is_local_use(n),
            |u: SalsaNameUseSummary| u.resolution == SalsaNameUseResolutionSummary::LocalDecl(decl_id),
        );
    }
    collect_decl_references_in_index(&index, decl_id)
}

/// The uses of the global `name`, in order.
pub fn collect_global_name_references(use_sites: &SalsaUseSiteIndexSummary, name: &str) -> (r: Vec<
    SalsaNameUseSummary,
>)
    ensures
        r@ == use_sites.names@.filter(|u: SalsaNameUseSummary| is_global_use(u) && u.name@ == name@),
{
    let index = build_lexical_use_index(use_sites);
    proof {
        lemma_filter_and(
            use_sites.names@,
            |n: SalsaNameUseSummary| is_global_use(n),
            |u: SalsaNameUseSummary| u.name@ == name@,
            |u: SalsaNameUseSummary| is_global_use(u) && u.name@ == name@,
        );
    }
    collect_global_name_references_in_index(&index, name)
}

/// The name uses in `role`, in order.
pub fn collect_name_references_by_role(use_sites: &SalsaUseSiteIndexSummary, role: &SalsaUseSiteRoleSummary) -> (r:
    Vec<SalsaNameUseSummary>)
    ensures
        r@ == use_sites.names@.filter(|u: SalsaNameUseSummary| u.role == *role),
{
    let index = build_lexical_use_index(use_sites);
    collect_name_references_by_role_in_index(&index, role)
}

/// The uses of the member with target handle `member_target`, in order.
pub fn collect_member_references(use_sites: &SalsaUseSiteIndexSummary, member_target: u32) -> (r: Vec<
    SalsaMemberUseSummary,
>)
    ensures
        r@ == use_sites.members@.filter(|u: SalsaMemberUseSummary| u.target == member_target),
{
    let index = build_lexical_use_index(use_sites);
    collect_member_references_in_index(&index, member_target)
}

/// The member uses in `role`, in order.
pub fn collect_member_references_by_role(use_sites: &SalsaUseSiteIndexSummary, role: &SalsaUseSiteRoleSummary) -> (r:
    Vec<SalsaMemberUseSummary>)
    ensures
        r@ == use_sites.members@.filter(|u: SalsaMemberUseSummary| u.role == *role),
{
    let index = build_lexical_use_index(use_sites);
    collect_member_references_by_role_in_index(&index, role)
}

/// The calls whose callee is the name `callee_name`, in order.
pub fn collect_call_references_for_name(use_sites: &SalsaUseSiteIndexSummary, callee_name: &str) -> (r: Vec<
    SalsaCallUseSummary,
>)
    ensures
        r@ == use_sites.calls@.filter(
            |u: SalsaCallUseSummary| u.callee_name matches Some(n) && n@ == callee_name@,
        ),
{
    let index = build_lexical_use_index(use_sites);
    collect_call_references_for_name_in_index(&index, callee_name)
}

/// The calls whose callee is the member with target handle `member_target`, in order.
pub fn collect_call_references_for_member(use_sites: &SalsaUseSiteIndexSummary, member_target: u32) -> (r: Vec<
    SalsaCallUseSummary,
>)
    ensures
        r@ == use_sites.calls@.filter(|u: SalsaCallUseSummary| u.callee_member == Some(member_target)),
{
    let index = build_lexical_use_index(use_sites);
    collect_call_references_for_member_in_index(&index, member_target)
}

} // verus!
