//! The declarations and scopes of a file, and which declaration a name sees at
//! a given offset.
use vstd::prelude::*;

use crate::lookup::{Keyed, first_with_key, find_first_index, lemma_first_index_with_key};
use crate::type_info::SalsaSyntaxIdSummary;

verus! {

#[derive(Clone, Copy, Debug, PartialEq, Eq, Structural)]
pub enum SalsaLocalAttributeSummary {
    Const,
    Close,
    IterConst,
}

#[derive(Clone, Copy, Debug, PartialEq, Eq, Structural)]
pub enum SalsaDeclKindSummary {
    Local { attrib: Option<SalsaLocalAttributeSummary> },
    Global,
    Param { signature_offset: u32, idx: usize },
    ImplicitSelf,
}

/// One declaration: its id, name, kind, the scope it is declared in, where it
/// starts and, for a local with an initializer, where its value expression is,
/// its syntax, which of that expression's results it takes, and the call that
/// gives it, if any.
#[derive(Clone, Debug)]
pub struct SalsaDeclSummary {
    pub id: u32,
    pub name: String,
    pub kind: SalsaDeclKindSummary,
    pub scope_id: u32,
    pub start_offset: u32,
    pub value_expr_offset: Option<u32>,
    pub value_expr_syntax_id: Option<SalsaSyntaxIdSummary>,
    pub value_result_index: usize,
    pub source_call_syntax_id: Option<SalsaSyntaxIdSummary>,
}

/// A scope: its id, the range it covers (both ends included) and its parent.
#[derive(Clone, Copy, Debug, PartialEq, Eq, Structural)]
pub struct SalsaScopeSummary {
    pub id: u32,
    pub start_offset: u32,
    pub end_offset: u32,
    pub parent: Option<u32>,
}

#[derive(Clone, Debug)]
pub struct SalsaDeclTreeSummary {
    pub decls: Vec<SalsaDeclSummary>,
    pub scopes: Vec<SalsaScopeSummary>,
}

impl Keyed for SalsaScopeSummary {
    open spec fn key(&self) -> u32 { self.id }
    fn get_key(&self) -> (k: u32) { self.id }
}

pub open spec fn spec_scope_covers(scope: SalsaScopeSummary, offset: u32) -> bool {
    scope.start_offset <= offset && offset <= scope.end_offset
}

/// Index of the innermost scope at `offset`, or -1: of the scopes that cover it,
/// the one that starts last; of several that start there, the last listed.
pub open spec fn innermost_scope_index(scopes: Seq<SalsaScopeSummary>, offset: u32) -> int
    decreases scopes.len(),
{
    if scopes.len() == 0 {
        -1
    } else {
        let before = innermost_scope_index(scopes.drop_last(), offset);
        let last = scopes.last();
        if spec_scope_covers(last, offset) && (before == -1 || scopes[before].start_offset
            <= last.start_offset) {
            scopes.len() - 1
        } else {
            before
        }
    }
}

pub open spec fn spec_innermost_scope_id(tree: SalsaDeclTreeSummary, offset: u32) -> Option<u32> {
    let i = innermost_scope_index(tree.scopes@, offset);
    if i >= 0 { Some(tree.scopes@[i].id) } else { None }
}

/// The parent of the scope with id `id` (the first scope listed with that id).
pub open spec fn spec_scope_parent(scopes: Seq<SalsaScopeSummary>, id: u32) -> Option<u32> {
    match first_with_key(scopes, id) {
        Some(scope) => scope.parent,
        None => None,
    }
}

/// The scope from which a declaration is visible: a local's own scope is the
/// block that holds its initializer, so it becomes visible in the parent of that
/// scope; a loop variable (`IterConst`) and every other kind in its own scope.
pub open spec fn spec_visibility_scope_id(tree: SalsaDeclTreeSummary, decl: SalsaDeclSummary) -> u32 {
    match decl.kind {
        SalsaDeclKindSummary::Local { attrib } => {
            if attrib == Some(SalsaLocalAttributeSummary::IterConst) {
                decl.scope_id
            } else {
                match spec_scope_parent(tree.scopes@, decl.scope_id) {
                    Some(parent) => parent,
                    None => decl.scope_id,
                }
            }
        },
        _ => decl.scope_id,
    }
}

/// Whether walking up the parent chain from `current` meets `candidate` within
/// `fuel` steps.
pub open spec fn scope_chain_meets(
    scopes: Seq<SalsaScopeSummary>,
    candidate: u32,
    current: Option<u32>,
    fuel: nat,
) -> bool
    decreases fuel,
{
    match current {
        None => false,
        Some(id) => if id == candidate {
            true
        } else if fuel == 0 {
            false
        } else {
            scope_chain_meets(scopes, candidate, spec_scope_parent(scopes, id), (fuel - 1) as nat)
        },
    }
}

/// Whether `candidate` is `current` or one of its ancestors. The walk takes at
/// most one step per scope: a parent chain without a cycle is no longer, and a
/// chain that returns to a scope it passed is given up there.
pub open spec fn spec_scope_in_ancestor_chain(
    tree: SalsaDeclTreeSummary,
    candidate: u32,
    current: u32,
) -> bool {
    scope_chain_meets(tree.scopes@, candidate, Some(current), tree.scopes@.len())
}

pub open spec fn spec_decl_visible_from(
    tree: SalsaDeclTreeSummary,
    decl: SalsaDeclSummary,
    name: Seq<char>,
    offset: u32,
    scope_id: u32,
) -> bool {
    &&& decl.name@ == name
    &&& decl.start_offset <= offset
    &&& spec_scope_in_ancestor_chain(tree, spec_visibility_scope_id(tree, decl), scope_id)
}

/// Index of the last declaration with `name`, started by `offset` and visible
/// from `scope_id`, or -1.
pub open spec fn last_visible_decl_index(
    tree: SalsaDeclTreeSummary,
    decls: Seq<SalsaDeclSummary>,
    name: Seq<char>,
    offset: u32,
    scope_id: u32,
) -> int
    decreases decls.len(),
{
    if decls.len() == 0 {
        -1
    } else if spec_decl_visible_from(tree, decls.last(), name, offset, scope_id) {
        decls.len() - 1
    } else {
        last_visible_decl_index(tree, decls.drop_last(), name, offset, scope_id)
    }
}

/// The declaration that `name` means at `offset`: the last one, in declaration
/// order, that is named so, starts by `offset` and is visible from the innermost
/// scope there. None where no scope covers `offset`.
pub open spec fn spec_find_visible_decl_index(
    tree: SalsaDeclTreeSummary,
    name: Seq<char>,
    offset: u32,
) -> int {
    match spec_innermost_scope_id(tree, offset) {
        None => -1,
        Some(scope_id) => last_visible_decl_index(tree, tree.decls@, name, offset, scope_id),
    }
}

pub proof fn lemma_last_visible_decl_index(
    tree: SalsaDeclTreeSummary,
    decls: Seq<SalsaDeclSummary>,
    name: Seq<char>,
    offset: u32,
    scope_id: u32,
)
    ensures
        -1 <= last_visible_decl_index(tree, decls, name, offset, scope_id) < decls.len(),
    decreases decls.len(),
{
    if decls.len() > 0 {
        lemma_last_visible_decl_index(tree, decls.drop_last(), name, offset, scope_id);
    }
}

pub proof fn lemma_innermost_scope_index(scopes: Seq<SalsaScopeSummary>, offset: u32)
    ensures
        -1 <= innermost_scope_index(scopes, offset) < scopes.len(),
    decreases scopes.len(),
{
    if scopes.len() > 0 {
        lemma_innermost_scope_index(scopes.drop_last(), offset);
    }
}

/// Finds the scope with id `scope_id` (the first listed).
fn get_scope_by_id(tree: &SalsaDeclTreeSummary, scope_id: u32) -> (r: Option<&SalsaScopeSummary>)
    ensures
        match r {
            Some(s) => first_with_key(tree.scopes@, scope_id) == Some(*s),
            None => first_with_key(tree.scopes@, scope_id).is_none(),
        },
{
    proof { lemma_first_index_with_key(tree.scopes@, scope_id); }
    match find_first_index(&tree.scopes, scope_id) {
        Some(i) => Some(&tree.scopes[i]),
        None => None,
    }
}

/// The id of the innermost scope that covers `offset`.
fn innermost_scope_id_at_offset(tree: &SalsaDeclTreeSummary, offset: u32) -> (r: Option<u32>)
    ensures
        r == spec_innermost_scope_id(*tree, offset),
{
    let mut best: Option<usize> = None;
    let mut i: usize = 0;
    while i < tree.scopes.len()
        invariant
            i <= tree.scopes@.len(),
            match best {
                Some(b) => b as int == innermost_scope_index(tree.scopes@.take(i as int), offset),
                None => innermost_scope_index(tree.scopes@.take(i as int), offset) == -1,
            },
        decreases tree.scopes@.len() - i,
    {
        proof {
            lemma_innermost_scope_index(tree.scopes@.take(i as int), offset);
            assert(tree.scopes@.take(i + 1).drop_last() =~= tree.scopes@.take(i as int));
        }
        let scope = &tree.scopes[i];
        if scope.start_offset <= offset && offset <= scope.end_offset {
            match best {
                Some(b) => {
                    if tree.scopes[b].start_offset <= scope.start_offset {
                        best = Some(i);
                    }
                },
                None => {
                    best = Some(i);
                },
            }
        }
        i = i + 1;
    }
    proof {
        assert(tree.scopes@.take(i as int) =~= tree.scopes@);
        lemma_innermost_scope_index(tree.scopes@, offset);
    }
    match best {
        Some(b) => Some(tree.scopes[b].id),
        None => None,
    }
}

/// The scope from which `decl` is visible.
fn visibility_scope_id(tree: &SalsaDeclTreeSummary, decl: &SalsaDeclSummary) -> (r: u32)
    ensures
        r == spec_visibility_scope_id(*tree, *decl),
{
    match decl.kind {
        SalsaDeclKindSummary::Local { attrib } => {
            if matches!(attrib, Some(SalsaLocalAttributeSummary::IterConst)) {
                return decl.scope_id;
            }
            match get_scope_by_id(tree, decl.scope_id) {
                Some(scope) => match scope.parent {
                    Some(parent) => parent,
                    None => decl.scope_id,
                },
                None => decl.scope_id,
            }
        },
        _ => decl.scope_id,
    }
}

/// Whether `candidate_scope_id` is `current_scope_id` or one of its ancestors.
fn is_scope_in_ancestor_chain(
    tree: &SalsaDeclTreeSummary,
    candidate_scope_id: u32,
    current_scope_id: u32,
) -> (r: bool)
    ensures
        r == spec_scope_in_ancestor_chain(*tree, candidate_scope_id, current_scope_id),
{
    let mut scope_id: Option<u32> = Some(current_scope_id);
    let mut fuel: usize = tree.scopes.len();
    while true
        invariant
            scope_chain_meets(tree.scopes@, candidate_scope_id, scope_id, fuel as nat)
                == spec_scope_in_ancestor_chain(*tree, candidate_scope_id, current_scope_id),
        decreases fuel,
    {
        match scope_id {
            None => {
                return false;
            },
            Some(id) => {
                if id == candidate_scope_id {
                    return true;
                }
                if fuel == 0 {
                    return false;
                }
                scope_id = match get_scope_by_id(tree, id) {
                    Some(scope) => scope.parent,
                    None => None,
                };
                fuel = fuel - 1;
            },
        }
    }
    false
}

/// Finds the declaration that `name` means at `offset`: the last declared with
/// that name that has started by `offset` and is visible from the innermost
/// scope there.
pub fn find_visible_decl_before_offset<'a>(
    tree: &'a SalsaDeclTreeSummary,
    name: &str,
    offset: u32,
) -> (r: Option<&'a SalsaDeclSummary>)
    ensures
        match r {
            Some(d) => {
                let i = spec_find_visible_decl_index(*tree, name@, offset);
                0 <= i < tree.decls@.len() && tree.decls@[i] == *d
            },
            None => spec_find_visible_decl_index(*tree, name@, offset) == -1,
        },
{
    let scope_id = match innermost_scope_id_at_offset(tree, offset) {
        Some(s) => s,
        None => {
            return None;
        },
    };
    let wanted: String = name.to_owned();
    let mut i: usize = tree.decls.len();
    assert(tree.decls@.take(i as int) =~= tree.decls@);
    while i > 0
        invariant
            i <= tree.decls@.len(),
            wanted@ == name@,
            spec_innermost_scope_id(*tree, offset) == Some(scope_id),
            last_visible_decl_index(*tree, tree.decls@, name@, offset, scope_id)
                == last_visible_decl_index(*tree, tree.decls@.take(i as int), name@, offset, scope_id),
        decreases i,
    {
        proof {
            assert(tree.decls@.take(i as int).drop_last() =~= tree.decls@.take(i - 1));
        }
        let decl = &tree.decls[i - 1];
        if decl.name == wanted && decl.start_offset <= offset {
            let vis = visibility_scope_id(tree, decl);
            if is_scope_in_ancestor_chain(tree, vis, scope_id) {
                return Some(decl);
            }
        }
        i = i - 1;
    }
    None
}

} // verus!
