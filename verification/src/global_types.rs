//! The type information of a file's globals, one entry per name in increasing
//! order, and the lookups that answer a use of a name or a member with it.
use vstd::prelude::*;

use crate::lookup::{Named, find_first_named, first_index_named};
use crate::module::{SalsaGlobalEntrySummary, SalsaGlobalFunctionSummary, SalsaGlobalSummary};
use crate::name_order::{insert_name_sorted_unique, names_strictly_sorted, names_view};
use crate::signature_model::{CandidateView, candidates_view};
use crate::type_candidates::{decl_candidate_view, decl_type_to_candidate};
use crate::type_info::{
    SalsaDeclTypeInfoSummary, SalsaDeclTypeQueryIndex, SalsaMemberTypeInfoSummary, SalsaMemberTypeQueryIndex,
    SalsaTypeCandidateOriginSummary, SalsaTypeCandidateSummary, find_decl_type_info, find_member_type_info,
    spec_find_decl_type_info, spec_find_member_type_info,
};
use crate::uses::{SalsaMemberUseSummary, SalsaNameUseResolutionSummary, SalsaNameUseSummary};
use crate::value_summaries::{clone_decl_type_info, decl_type_view};

verus! {

/// The type information of one global name: every candidate for it.
#[derive(Clone, Debug, PartialEq, Eq)]
pub struct SalsaGlobalTypeInfoSummary {
    pub name: String,
    pub candidates: Vec<SalsaTypeCandidateSummary>,
}

/// The type information of a file's globals.
#[derive(Clone, Debug)]
pub struct SalsaGlobalTypeQueryIndex {
    pub globals: Vec<SalsaGlobalTypeInfoSummary>,
}

/// A use of a name, with the type information of the declaration it resolves to.
#[derive(Clone, Debug, PartialEq, Eq)]
pub struct SalsaNameTypeInfoSummary {
    pub name_use: SalsaNameUseSummary,
    pub decl_type: Option<SalsaDeclTypeInfoSummary>,
}

impl Named for SalsaGlobalTypeInfoSummary {
    open spec fn name_view(&self) -> Seq<char> {
        self.name@
    }

    fn name_string(&self) -> (r: &String) {
        &self.name
    }
}

/// The candidates of the declarations `ids` that have type information, in order.
pub open spec fn ids_candidates(ids: Seq<u32>, decl_types: SalsaDeclTypeQueryIndex) -> Seq<CandidateView>
    decreases ids.len(),
{
    if ids.len() == 0 {
        Seq::empty()
    } else {
        ids_candidates(ids.drop_last(), decl_types) + match spec_find_decl_type_info(decl_types, ids.last()) {
            Some(d) => seq![decl_candidate_view(d)],
            None => Seq::empty(),
        }
    }
}

/// The candidates that the global entries named `n` give, in order.
pub open spec fn entries_candidates(
    entries: Seq<SalsaGlobalEntrySummary>,
    decl_types: SalsaDeclTypeQueryIndex,
    n: Seq<char>,
) -> Seq<CandidateView>
    decreases entries.len(),
{
    if entries.len() == 0 {
        Seq::empty()
    } else {
        entries_candidates(entries.drop_last(), decl_types, n) + if entries.last().name@ == n {
            ids_candidates(entries.last().decl_ids@, decl_types)
        } else {
            Seq::empty()
        }
    }
}

/// The candidate of a global function: its signature alone.
pub open spec fn function_candidate_view(f: SalsaGlobalFunctionSummary) -> CandidateView {
    CandidateView {
        origin: SalsaTypeCandidateOriginSummary::GlobalFunction(f.signature_offset),
        explicit_type_offsets: Seq::empty(),
        named_type_names: Seq::empty(),
        initializer_offset: None,
        value_expr_syntax_id: None,
        value_result_index: 0,
        source_call_syntax_id: None,
        signature_offset: Some(f.signature_offset),
    }
}

/// The candidates of the global functions named `n`, in order.
pub open spec fn functions_candidates(functions: Seq<SalsaGlobalFunctionSummary>, n: Seq<char>) -> Seq<CandidateView>
    decreases functions.len(),
{
    if functions.len() == 0 {
        Seq::empty()
    } else {
        functions_candidates(functions.drop_last(), n) + if functions.last().name@ == n {
            seq![function_candidate_view(functions.last())]
        } else {
            Seq::empty()
        }
    }
}

/// Every candidate of the global name `n`: those of its entries, then those of
/// its functions.
pub open spec fn global_candidates(globals: SalsaGlobalSummary, decl_types: SalsaDeclTypeQueryIndex, n: Seq<char>) -> Seq<
    CandidateView,
> {
    entries_candidates(globals.entries@, decl_types, n) + functions_candidates(globals.functions@, n)
}

/// Some global entry or global function is named `n`.
pub open spec fn global_named(globals: SalsaGlobalSummary, n: Seq<char>) -> bool {
    ||| exists|i: int| 0 <= i < globals.entries@.len() && #[trigger] globals.entries@[i].name@ == n
    ||| exists|i: int| 0 <= i < globals.functions@.len() && #[trigger] globals.functions@[i].name@ == n
}

/// The names of the global entries of an index, in order.
pub open spec fn global_names(s: Seq<SalsaGlobalTypeInfoSummary>) -> Seq<Seq<char>> {
    s.map_values(|g: SalsaGlobalTypeInfoSummary| g.name@)
}

fn collect_global_names(globals: &SalsaGlobalSummary) -> (r: Vec<String>)
    ensures
        names_strictly_sorted(names_view(r@)),
        forall|n: Seq<char>| #[trigger] names_view(r@).contains(n) <==> global_named(*globals, n),
{
    let mut names: Vec<String> = Vec::new();
    assert(names_view(names@) =~= Seq::<Seq<char>>::empty());
    let mut i: usize = 0;
    while i < globals.entries.len()
        invariant
            i <= globals.entries@.len(),
            names_strictly_sorted(names_view(names@)),
            forall|n: Seq<char>| #[trigger] names_view(names@).contains(n) <==> exists|k: int|
                0 <= k < i && #[trigger] globals.entries@[k].name@ == n,
        decreases globals.entries@.len() - i,
    {
        let ghost before = names_view(names@);
        insert_name_sorted_unique(&mut names, globals.entries[i].name.clone());
        assert forall|n: Seq<char>| #[trigger] names_view(names@).contains(n) <==> exists|k: int|
            0 <= k < i + 1 && #[trigger] globals.entries@[k].name@ == n by {
            if exists|k: int| 0 <= k < i + 1 && #[trigger] globals.entries@[k].name@ == n {
                let k = choose|k: int| 0 <= k < i + 1 && #[trigger] globals.entries@[k].name@ == n;
                if k < i {
                    assert(before.contains(n));
                }
            }
            if names_view(names@).contains(n) && !before.contains(n) {
                assert(globals.entries@[i as int].name@ == n);
            }
        }
        i = i + 1;
    }
    let mut f: usize = 0;
    while f < globals.functions.len()
        invariant
            f <= globals.functions@.len(),
            names_strictly_sorted(names_view(names@)),
            forall|n: Seq<char>| #[trigger] names_view(names@).contains(n) <==> ((exists|k: int|
                0 <= k < globals.entries@.len() && #[trigger] globals.entries@[k].name@ == n) || exists|k: int|
                0 <= k < f && #[trigger] globals.functions@[k].name@ == n),
        decreases globals.functions@.len() - f,
    {
        let ghost before = names_view(names@);
        insert_name_sorted_unique(&mut names, globals.functions[f].name.clone());
        assert forall|n: Seq<char>| #[trigger] names_view(names@).contains(n) <==> ((exists|k: int|
            0 <= k < globals.entries@.len() && #[trigger] globals.entries@[k].name@ == n) || exists|k: int|
            0 <= k < f + 1 && #[trigger] globals.functions@[k].name@ == n) by {
            if exists|k: int| 0 <= k < f + 1 && #[trigger] globals.functions@[k].name@ == n {
                let k = choose|k: int| 0 <= k < f + 1 && #[trigger] globals.functions@[k].name@ == n;
                if k < f {
                    assert(before.contains(n));
                }
            }
            if names_view(names@).contains(n) && !before.contains(n) {
                assert(globals.functions@[f as int].name@ == n);
            }
        }
        f = f + 1;
    }
    names
}

fn push_ids_candidates(cands: &mut Vec<SalsaTypeCandidateSummary>, ids: &Vec<u32>, decl_types: &SalsaDeclTypeQueryIndex)
    ensures
        candidates_view(final(cands)@) == candidates_view(old(cands)@) + ids_candidates(ids@, *decl_types),
{
    let ghost start = candidates_view(cands@);
    let mut k: usize = 0;
    while k < ids.len()
        invariant
            k <= ids@.len(),
            candidates_view(cands@) == start + ids_candidates(ids@.take(k as int), *decl_types),
        decreases ids@.len() - k,
    {
        assert(ids@.take(k + 1).drop_last() =~= ids@.take(k as int));
        let ghost before = cands@;
        match find_decl_type_info(decl_types, ids[k]) {
            Some(d) => {
                cands.push(decl_type_to_candidate(d));
                assert(candidates_view(cands@) =~= candidates_view(before).push(decl_candidate_view(*d)));
            },
            None => {},
        }
        assert(candidates_view(cands@) =~= start + ids_candidates(ids@.take(k + 1), *decl_types));
        k = k + 1;
    }
    assert(ids@.take(k as int) =~= ids@);
}

fn build_global_candidates(globals: &SalsaGlobalSummary, decl_types: &SalsaDeclTypeQueryIndex, name: &String) -> (r: Vec<
    SalsaTypeCandidateSummary,
>)
    ensures
        candidates_view(r@) == global_candidates(*globals, *decl_types, name@),
{
    let mut cands: Vec<SalsaTypeCandidateSummary> = Vec::new();
    assert(candidates_view(cands@) =~= Seq::<CandidateView>::empty());
    let mut i: usize = 0;
    while i < globals.entries.len()
        invariant
            i <= globals.entries@.len(),
            candidates_view(cands@) == entries_candidates(globals.entries@.take(i as int), *decl_types, name@),
        decreases globals.entries@.len() - i,
    {
        assert(globals.entries@.take(i + 1).drop_last() =~= globals.entries@.take(i as int));
        let entry = &globals.entries[i];
        if entry.name == *name {
            push_ids_candidates(&mut cands, &entry.decl_ids, decl_types);
        } else {
            assert(candidates_view(cands@) =~= candidates_view(cands@) + Seq::<CandidateView>::empty());
        }
        i = i + 1;
    }
    assert(globals.entries@.take(i as int) =~= globals.entries@);
    let ghost from_entries = candidates_view(cands@);
    let mut f: usize = 0;
    while f < globals.functions.len()
        invariant
            f <= globals.functions@.len(),
            candidates_view(cands@) == from_entries + functions_candidates(globals.functions@.take(f as int), name@),
        decreases globals.functions@.len() - f,
    {
        assert(globals.functions@.take(f + 1).drop_last() =~= globals.functions@.take(f as int));
        let function = &globals.functions[f];
        let ghost before = cands@;
        if function.name == *name {
            let c = SalsaTypeCandidateSummary {
                origin: SalsaTypeCandidateOriginSummary::GlobalFunction(function.signature_offset),
                explicit_type_offsets: Vec::new(),
                named_type_names: Vec::new(),
                initializer_offset: None,
                value_expr_syntax_id: None,
                value_result_index: 0,
                source_call_syntax_id: None,
                signature_offset: Some(function.signature_offset),
            };
            assert(c@.explicit_type_offsets =~= Seq::<u32>::empty());
            assert(c@.named_type_names =~= Seq::<Seq<char>>::empty());
            assert(c@ == function_candidate_view(*function));
            cands.push(c);
            assert(candidates_view(cands@) =~= candidates_view(before).push(function_candidate_view(*function)));
        }
        assert(candidates_view(cands@) =~= from_entries + functions_candidates(globals.functions@.take(f + 1), name@));
        f = f + 1;
    }
    assert(globals.functions@.take(f as int) =~= globals.functions@);
    cands
}

/// The type information of a file's globals: one entry per name that a global
/// entry or a global function has, in increasing order of names, with the
/// candidates of that name's declarations that have type information (entry by
/// entry, in order) followed by those of its functions.
pub fn build_global_type_query_index(globals: &SalsaGlobalSummary, decl_types: &SalsaDeclTypeQueryIndex) -> (r:
    SalsaGlobalTypeQueryIndex)
    ensures
        names_strictly_sorted(global_names(r.globals@)),
        forall|n: Seq<char>| #[trigger] global_names(r.globals@).contains(n) <==> global_named(*globals, n),
        forall|i: int| 0 <= i < r.globals@.len() ==> #[trigger] candidates_view(r.globals@[i].candidates@)
            == global_candidates(*globals, *decl_types, r.globals@[i].name@),
{
    let names = collect_global_names(globals);
    let mut out: Vec<SalsaGlobalTypeInfoSummary> = Vec::new();
    let mut k: usize = 0;
    while k < names.len()
        invariant
            k <= names@.len(),
            global_names(out@) == names_view(names@).take(k as int),
            forall|i: int| 0 <= i < out@.len() ==> #[trigger] candidates_view(out@[i].candidates@)
                == global_candidates(*globals, *decl_types, out@[i].name@),
        decreases names@.len() - k,
    {
        let candidates = build_global_candidates(globals, decl_types, &names[k]);
        let ghost before = out@;
        out.push(SalsaGlobalTypeInfoSummary { name: names[k].clone(), candidates });
        assert(global_names(out@) =~= global_names(before).push(names@[k as int]@));
        assert(names_view(names@).take(k + 1) =~= names_view(names@).take(k as int).push(names@[k as int]@));
        k = k + 1;
    }
    assert(names_view(names@).take(k as int) =~= names_view(names@));
    SalsaGlobalTypeQueryIndex { globals: out }
}

/// The type information of the global `name`: the first entry for it.
pub open spec fn spec_find_global_type_info(index: SalsaGlobalTypeQueryIndex, name: Seq<char>) -> Option<
    SalsaGlobalTypeInfoSummary,
> {
    let i = first_index_named(index.globals@, name);
    if i >= 0 {
        Some(index.globals@[i])
    } else {
        None
    }
}

/// Finds the type information of the global `name`.
pub fn find_global_type_info<'a>(index: &'a SalsaGlobalTypeQueryIndex, name: &String) -> (r: Option<
    &'a SalsaGlobalTypeInfoSummary,
>)
    ensures
        match r {
            Some(g) => spec_find_global_type_info(*index, name@) == Some(*g),
            None => spec_find_global_type_info(*index, name@).is_none(),
        },
{
    match find_first_named(&index.globals, name) {
        Some(i) => Some(&index.globals[i]),
        None => None,
    }
}

/// The type information of the global that a use of a name reads: none for a
/// use that resolves to a local declaration.
pub fn find_global_name_type_info<'a>(index: &'a SalsaGlobalTypeQueryIndex, name_use: &SalsaNameUseSummary) -> (r: Option<
    &'a SalsaGlobalTypeInfoSummary,
>)
    ensures
        match name_use.resolution {
            SalsaNameUseResolutionSummary::Global => match r {
                Some(g) => spec_find_global_type_info(*index, name_use.name@) == Some(*g),
                None => spec_find_global_type_info(*index, name_use.name@).is_none(),
            },
            SalsaNameUseResolutionSummary::LocalDecl(_) => r.is_none(),
        },
{
    match name_use.resolution {
        SalsaNameUseResolutionSummary::Global => find_global_type_info(index, &name_use.name),
        SalsaNameUseResolutionSummary::LocalDecl(_) => None,
    }
}

/// The type information of the member that a use of a member reads.
pub fn find_member_use_type_info<'a>(index: &'a SalsaMemberTypeQueryIndex, member_use: &SalsaMemberUseSummary) -> (r:
    Option<&'a SalsaMemberTypeInfoSummary>)
    ensures
        match r {
            Some(m) => spec_find_member_type_info(*index, member_use.target) == Some(*m),
            None => spec_find_member_type_info(*index, member_use.target).is_none(),
        },
{
    find_member_type_info(index, member_use.target)
}

fn clone_name_use(u: &SalsaNameUseSummary) -> (r: SalsaNameUseSummary)
    ensures
        r.syntax_offset == u.syntax_offset,
        r.syntax_id == u.syntax_id,
        r.name@ == u.name@,
        r.role == u.role,
        r.resolution == u.resolution,
{
    SalsaNameUseSummary {
        syntax_offset: u.syntax_offset,
        syntax_id: u.syntax_id,
        name: u.name.clone(),
        role: u.role,
        resolution: u.resolution,
    }
}

/// A use of a name with the type information of the local declaration it
/// resolves to (none for a global use, or where the declaration has none).
pub fn find_name_type_info(index: &SalsaDeclTypeQueryIndex, name_use: &SalsaNameUseSummary) -> (r: SalsaNameTypeInfoSummary)
    ensures
        r.name_use.syntax_offset == name_use.syntax_offset,
        r.name_use.syntax_id == name_use.syntax_id,
        r.name_use.name@ == name_use.name@,
        r.name_use.role == name_use.role,
        r.name_use.resolution == name_use.resolution,
        match name_use.resolution {
            SalsaNameUseResolutionSummary::LocalDecl(decl_id) => match (r.decl_type, spec_find_decl_type_info(*index, decl_id)) {
                (Some(d), Some(e)) => decl_type_view(d) == decl_type_view(e),
                (None, None) => true,
                _ => false,
            },
            SalsaNameUseResolutionSummary::Global => r.decl_type.is_none(),
        },
{
    let decl_type = match name_use.resolution {
        SalsaNameUseResolutionSummary::LocalDecl(decl_id) => match find_decl_type_info(index, decl_id) {
            Some(d) => Some(clone_decl_type_info(d)),
            None => None,
        },
        SalsaNameUseResolutionSummary::Global => None,
    };
    SalsaNameTypeInfoSummary { name_use: clone_name_use(name_use), decl_type }
}

} // verus!
