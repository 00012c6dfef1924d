//! Members (fields assigned on a table or a global) and the paths that name them.
use vstd::prelude::*;
use vstd::string::StringExecFns;

verus! {

#[derive(Clone, Debug)]
pub enum SalsaGlobalRootSummary {
    Env,
    Name(String),
}

/// What a member hangs from: the environment, a global name or a local declaration.
#[derive(Clone, Debug)]
pub enum SalsaMemberRootSummary {
    Global(SalsaGlobalRootSummary),
    LocalDecl { name: String, decl_id: u32 },
}

/// A member: its root, the segments between the root and it, and its own name.
#[derive(Clone, Debug)]
pub struct SalsaMemberTargetSummary {
    pub root: SalsaMemberRootSummary,
    pub owner_segments: Vec<String>,
    pub member_name: String,
}

#[derive(Clone, Debug)]
pub enum SalsaMemberPathRootSummary {
    Env,
    Name(String),
}

/// A member written as a path: a root name, segments and the member's name. A
/// path does not tell a local root from a global one.
#[derive(Clone, Debug)]
pub struct SalsaMemberPathSummary {
    pub root: SalsaMemberPathRootSummary,
    pub owner_segments: Vec<String>,
    pub member_name: String,
}

/// A member, the handle by which the other summaries name its target, and,
/// where it is assigned a value, where that value expression is.
#[derive(Clone, Debug)]
pub struct SalsaMemberSummary {
    pub target: SalsaMemberTargetSummary,
    pub target_handle: u32,
    pub value_expr_offset: Option<u32>,
}

#[derive(Clone, Debug)]
pub struct SalsaMemberIndexSummary {
    pub members: Vec<SalsaMemberSummary>,
}

pub enum MemberRootView {
    GlobalEnv,
    GlobalName(Seq<char>),
    LocalDecl(Seq<char>, u32),
}

pub struct MemberTargetView {
    pub root: MemberRootView,
    pub owner_segments: Seq<Seq<char>>,
    pub member_name: Seq<char>,
}

/// A path: its root name (None for the environment), segments and member name.
pub struct MemberPathView {
    pub root: Option<Seq<char>>,
    pub owner_segments: Seq<Seq<char>>,
    pub member_name: Seq<char>,
}

pub struct MemberView {
    pub target: MemberTargetView,
    pub target_handle: u32,
    pub value_expr_offset: Option<u32>,
}

pub open spec fn segments_view(s: Seq<String>) -> Seq<Seq<char>> {
    s.map_values(|x: String| x@)
}

impl View for SalsaMemberTargetSummary {
    type V = MemberTargetView;

    open spec fn view(&self) -> MemberTargetView {
        MemberTargetView {
            root: match self.root {
                SalsaMemberRootSummary::Global(SalsaGlobalRootSummary::Env) => MemberRootView::GlobalEnv,
                SalsaMemberRootSummary::Global(SalsaGlobalRootSummary::Name(n)) => MemberRootView::GlobalName(n@),
                SalsaMemberRootSummary::LocalDecl { name, decl_id } => MemberRootView::LocalDecl(name@, decl_id),
            },
            owner_segments: segments_view(self.owner_segments@),
            member_name: self.member_name@,
        }
    }
}

impl View for SalsaMemberPathSummary {
    type V = MemberPathView;

    open spec fn view(&self) -> MemberPathView {
        MemberPathView {
            root: match self.root {
                SalsaMemberPathRootSummary::Env => None,
                SalsaMemberPathRootSummary::Name(n) => Some(n@),
            },
            owner_segments: segments_view(self.owner_segments@),
            member_name: self.member_name@,
        }
    }
}

impl View for SalsaMemberSummary {
    type V = MemberView;

    open spec fn view(&self) -> MemberView {
        MemberView { target: self.target@, target_handle: self.target_handle, value_expr_offset: self.value_expr_offset }
    }
}

/// The path of a member: a local root is named like a global one.
pub open spec fn spec_member_target_path(target: MemberTargetView) -> MemberPathView {
    MemberPathView {
        root: match target.root {
            MemberRootView::GlobalEnv => None,
            MemberRootView::GlobalName(n) => Some(n),
            MemberRootView::LocalDecl(n, _) => Some(n),
        },
        owner_segments: target.owner_segments,
        member_name: target.member_name,
    }
}

/// Whether two lists of segments are equal.
pub fn segments_equal(a: &Vec<String>, b: &Vec<String>) -> (r: bool)
    ensures
        r == (segments_view(a@) == segments_view(b@)),
{
    if a.len() != b.len() {
        assert(segments_view(a@).len() != segments_view(b@).len());
        return false;
    }
    let mut i: usize = 0;
    while i < a.len()
        invariant
            a@.len() == b@.len(),
            i <= a@.len(),
            forall|j: int| 0 <= j < i ==> a@[j]@ == b@[j]@,
        decreases a@.len() - i,
    {
        if a[i] != b[i] {
            assert(segments_view(a@)[i as int] != segments_view(b@)[i as int]);
            return false;
        }
        i = i + 1;
    }
    assert(segments_view(a@) =~= segments_view(b@));
    true
}

pub fn clone_segments(a: &Vec<String>) -> (r: Vec<String>)
    ensures
        r@ == a@,
{
    let r = a.clone();
    assert(r@ =~= a@);
    r
}

pub fn clone_member_target(t: &SalsaMemberTargetSummary) -> (r: SalsaMemberTargetSummary)
    ensures
        r@ == t@,
{
    let root = match &t.root {
        SalsaMemberRootSummary::Global(SalsaGlobalRootSummary::Env) => SalsaMemberRootSummary::Global(
            SalsaGlobalRootSummary::Env,
        ),
        SalsaMemberRootSummary::Global(SalsaGlobalRootSummary::Name(n)) => SalsaMemberRootSummary::Global(
            SalsaGlobalRootSummary::Name(n.clone()),
        ),
        SalsaMemberRootSummary::LocalDecl { name, decl_id } => SalsaMemberRootSummary::LocalDecl {
            name: name.clone(),
            decl_id: *decl_id,
        },
    };
    SalsaMemberTargetSummary {
        root,
        owner_segments: clone_segments(&t.owner_segments),
        member_name: t.member_name.clone(),
    }
}

pub fn clone_member_path(p: &SalsaMemberPathSummary) -> (r: SalsaMemberPathSummary)
    ensures
        r@ == p@,
{
    let root = match &p.root {
        SalsaMemberPathRootSummary::Env => SalsaMemberPathRootSummary::Env,
        SalsaMemberPathRootSummary::Name(n) => SalsaMemberPathRootSummary::Name(n.clone()),
    };
    SalsaMemberPathSummary {
        root,
        owner_segments: clone_segments(&p.owner_segments),
        member_name: p.member_name.clone(),
    }
}

pub fn clone_member(m: &SalsaMemberSummary) -> (r: SalsaMemberSummary)
    ensures
        r@ == m@,
{
    SalsaMemberSummary {
        target: clone_member_target(&m.target),
        target_handle: m.target_handle,
        value_expr_offset: m.value_expr_offset,
    }
}

pub fn clone_members(v: &Vec<SalsaMemberSummary>) -> (r: Vec<SalsaMemberSummary>)
    ensures
        r@.len() == v@.len(),
        forall|i: int| 0 <= i < v@.len() ==> #[trigger] r@[i]@ == v@[i]@,
{
    let mut r: Vec<SalsaMemberSummary> = Vec::new();
    let mut i: usize = 0;
    while i < v.len()
        invariant
            i <= v@.len(),
            r@.len() == i,
            forall|j: int| 0 <= j < i ==> #[trigger] r@[j]@ == v@[j]@,
        decreases v@.len() - i,
    {
        r.push(clone_member(&v[i]));
        i = i + 1;
    }
    r
}

/// Whether two members' targets are the same.
pub fn member_targets_equal(a: &SalsaMemberTargetSummary, b: &SalsaMemberTargetSummary) -> (r: bool)
    ensures
        r == (a@ == b@),
{
    let roots_equal = match (&a.root, &b.root) {
        (
            SalsaMemberRootSummary::Global(SalsaGlobalRootSummary::Env),
            SalsaMemberRootSummary::Global(SalsaGlobalRootSummary::Env),
        ) => true,
        (
            SalsaMemberRootSummary::Global(SalsaGlobalRootSummary::Name(x)),
            SalsaMemberRootSummary::Global(SalsaGlobalRootSummary::Name(y)),
        ) => *x == *y,
        (
            SalsaMemberRootSummary::LocalDecl { name: x, decl_id: i },
            SalsaMemberRootSummary::LocalDecl { name: y, decl_id: j },
        ) => *x == *y && *i == *j,
        _ => false,
    };
    roots_equal && a.member_name == b.member_name && segments_equal(&a.owner_segments, &b.owner_segments)
}

/// Whether two paths are the same.
pub fn member_paths_equal(a: &SalsaMemberPathSummary, b: &SalsaMemberPathSummary) -> (r: bool)
    ensures
        r == (a@ == b@),
{
    let roots_equal = match (&a.root, &b.root) {
        (SalsaMemberPathRootSummary::Env, SalsaMemberPathRootSummary::Env) => true,
        (SalsaMemberPathRootSummary::Name(x), SalsaMemberPathRootSummary::Name(y)) => *x == *y,
        _ => false,
    };
    roots_equal && a.member_name == b.member_name && segments_equal(&a.owner_segments, &b.owner_segments)
}

/// The path that names a member.
pub fn member_target_path(target: &SalsaMemberTargetSummary) -> (r: SalsaMemberPathSummary)
    ensures
        r@ == spec_member_target_path(target@),
{
    let root = match &target.root {
        SalsaMemberRootSummary::Global(SalsaGlobalRootSummary::Env) => SalsaMemberPathRootSummary::Env,
        SalsaMemberRootSummary::Global(SalsaGlobalRootSummary::Name(name)) => SalsaMemberPathRootSummary::Name(
            name.clone(),
        ),
        SalsaMemberRootSummary::LocalDecl { name, .. } => SalsaMemberPathRootSummary::Name(name.clone()),
    };
    SalsaMemberPathSummary {
        root,
        owner_segments: clone_segments(&target.owner_segments),
        member_name: target.member_name.clone(),
    }
}

} // verus!

verus! {

/// `part` after `acc`, with a dot between them where `acc` is not empty.
pub open spec fn join_dot(acc: Seq<char>, part: Seq<char>) -> Seq<char> {
    if acc.len() == 0 {
        part
    } else {
        acc + "."@ + part
    }
}

/// The name of a member's root: `_ENV` for the environment, else its name.
pub open spec fn root_text(root: MemberRootView) -> Seq<char> {
    match root {
        MemberRootView::GlobalEnv => "_ENV"@,
        MemberRootView::GlobalName(n) => n,
        MemberRootView::LocalDecl(n, _) => n,
    }
}

/// The root's name followed by each segment, joined by dots.
pub open spec fn segments_joined(root: Seq<char>, segs: Seq<Seq<char>>) -> Seq<char>
    decreases segs.len(),
{
    if segs.len() == 0 {
        root
    } else {
        join_dot(segments_joined(root, segs.drop_last()), segs.last())
    }
}

/// The dotted full name of a member: its root, its segments, then its own name
/// where that is not empty.
pub open spec fn spec_member_full_name(t: MemberTargetView) -> Seq<char> {
    let base = segments_joined(root_text(t.root), t.owner_segments);
    if t.member_name.len() == 0 {
        base
    } else {
        join_dot(base, t.member_name)
    }
}

fn append_dotted(full_name: &mut String, part: &String)
    ensures
        final(full_name)@ == join_dot(old(full_name)@, part@),
{
    if !full_name.as_str().is_empty() {
        full_name.append(".");
    }
    full_name.append(part.as_str());
}

/// The dotted full name of a member, as a call to it is written.
pub fn build_member_full_name(target: &SalsaMemberTargetSummary) -> (r: String)
    ensures
        r@ == spec_member_full_name(target@),
{
    let mut full_name = match &target.root {
        SalsaMemberRootSummary::Global(SalsaGlobalRootSummary::Env) => String::from_str("_ENV"),
        SalsaMemberRootSummary::Global(SalsaGlobalRootSummary::Name(name)) => name.clone(),
        SalsaMemberRootSummary::LocalDecl { name, .. } => name.clone(),
    };
    let ghost root = full_name@;
    assert(root == root_text(target@.root));
    let ghost segs = target@.owner_segments;
    let mut i: usize = 0;
    while i < target.owner_segments.len()
        invariant
            i <= target.owner_segments@.len(),
            segs == segments_view(target.owner_segments@),
            full_name@ == segments_joined(root, segs.take(i as int)),
        decreases target.owner_segments@.len() - i,
    {
        assert(segs.take(i + 1).drop_last() =~= segs.take(i as int));
        assert(segs.take(i + 1).last() == target.owner_segments@[i as int]@);
        append_dotted(&mut full_name, &target.owner_segments[i]);
        i = i + 1;
    }
    assert(segs.take(i as int) =~= segs);
    if !target.member_name.as_str().is_empty() {
        append_dotted(&mut full_name, &target.member_name);
    }
    full_name
}

} // verus!
