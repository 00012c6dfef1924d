//! What a module returns, and how a returned name or member path is resolved to
//! a declaration, a global or a member.
use vstd::prelude::*;

use crate::decls::{SalsaDeclKindSummary, SalsaDeclSummary, SalsaDeclTreeSummary};
use crate::lookup::{
    Named, find_first_named, find_last_named, first_index_named, last_index_named,
    lemma_first_index_named, lemma_last_index_named,
};
use crate::members::{
    MemberPathView, MemberView, SalsaMemberIndexSummary, SalsaMemberPathSummary, SalsaMemberSummary,
    SalsaMemberTargetSummary, clone_member, clone_member_path, clone_members, member_paths_equal,
    member_target_path, member_targets_equal, spec_member_target_path,
};

verus! {

/// A global function: its name, the declaration it comes from and its signature.
#[derive(Clone, Debug)]
pub struct SalsaGlobalFunctionSummary {
    pub name: String,
    pub decl_id: Option<u32>,
    pub signature_offset: u32,
}

/// A global variable: its name and the declaration it comes from.
#[derive(Clone, Debug)]
pub struct SalsaGlobalVariableSummary {
    pub name: String,
    pub decl_id: u32,
}

/// A global name and the declarations that assign it.
#[derive(Clone, Debug)]
pub struct SalsaGlobalEntrySummary {
    pub name: String,
    pub decl_ids: Vec<u32>,
}

#[derive(Clone, Debug)]
pub struct SalsaGlobalSummary {
    pub entries: Vec<SalsaGlobalEntrySummary>,
    pub functions: Vec<SalsaGlobalFunctionSummary>,
    pub variables: Vec<SalsaGlobalVariableSummary>,
}

/// What a module's `return` names, before it is resolved.
#[derive(Clone, Debug)]
pub enum SalsaExportTargetSummary {
    LocalName(String),
    Member(SalsaMemberPathSummary),
    Closure(u32),
    Table(u32),
}

/// What a module's `return` resolves to.
#[derive(Clone, Debug)]
pub enum SalsaModuleExportSummary {
    LocalDecl { name: String, decl_id: u32 },
    GlobalFunction(SalsaGlobalFunctionSummary),
    GlobalVariable(SalsaGlobalVariableSummary),
    Member(SalsaMemberSummary),
    Closure { signature_offset: u32 },
    Table { table_offset: u32 },
}

#[derive(Clone, Debug)]
pub struct SalsaModuleSummary {
    pub export_target: Option<SalsaExportTargetSummary>,
    pub export: Option<SalsaModuleExportSummary>,
}

pub enum ExportTargetView {
    LocalName(Seq<char>),
    Member(MemberPathView),
    Closure(u32),
    Table(u32),
}

pub enum ModuleExportView {
    LocalDecl { name: Seq<char>, decl_id: u32 },
    GlobalFunction(SalsaGlobalFunctionSummary),
    GlobalVariable(SalsaGlobalVariableSummary),
    Member(MemberView),
    Closure { signature_offset: u32 },
    Table { table_offset: u32 },
}

impl View for SalsaExportTargetSummary {
    type V = ExportTargetView;

    open spec fn view(&self) -> ExportTargetView {
        match self {
            SalsaExportTargetSummary::LocalName(n) => ExportTargetView::LocalName(n@),
            SalsaExportTargetSummary::Member(p) => ExportTargetView::Member(p@),
            SalsaExportTargetSummary::Closure(o) => ExportTargetView::Closure(*o),
            SalsaExportTargetSummary::Table(o) => ExportTargetView::Table(*o),
        }
    }
}

impl View for SalsaModuleExportSummary {
    type V = ModuleExportView;

    open spec fn view(&self) -> ModuleExportView {
        match self {
            SalsaModuleExportSummary::LocalDecl { name, decl_id } => ModuleExportView::LocalDecl {
                name: name@,
                decl_id: *decl_id,
            },
            SalsaModuleExportSummary::GlobalFunction(f) => ModuleExportView::GlobalFunction(*f),
            SalsaModuleExportSummary::GlobalVariable(v) => ModuleExportView::GlobalVariable(*v),
            SalsaModuleExportSummary::Member(m) => ModuleExportView::Member(m@),
            SalsaModuleExportSummary::Closure { signature_offset } => ModuleExportView::Closure {
                signature_offset: *signature_offset,
            },
            SalsaModuleExportSummary::Table { table_offset } => ModuleExportView::Table {
                table_offset: *table_offset,
            },
        }
    }
}

pub open spec fn opt_export_target_view(t: Option<SalsaExportTargetSummary>) -> Option<ExportTargetView> {
    match t {
        Some(t) => Some(t@),
        None => None,
    }
}

pub open spec fn opt_export_view(e: Option<SalsaModuleExportSummary>) -> Option<ModuleExportView> {
    match e {
        Some(e) => Some(e@),
        None => None,
    }
}

impl Named for SalsaDeclSummary {
    open spec fn name_view(&self) -> Seq<char> { self.name@ }
    fn name_string(&self) -> (r: &String) { &self.name }
}

impl Named for SalsaGlobalFunctionSummary {
    open spec fn name_view(&self) -> Seq<char> { self.name@ }
    fn name_string(&self) -> (r: &String) { &self.name }
}

impl Named for SalsaGlobalVariableSummary {
    open spec fn name_view(&self) -> Seq<char> { self.name@ }
    fn name_string(&self) -> (r: &String) { &self.name }
}

fn clone_function(f: &SalsaGlobalFunctionSummary) -> (r: SalsaGlobalFunctionSummary)
    ensures
        r == *f,
{
    SalsaGlobalFunctionSummary { name: f.name.clone(), decl_id: f.decl_id, signature_offset: f.signature_offset }
}

fn clone_variable(v: &SalsaGlobalVariableSummary) -> (r: SalsaGlobalVariableSummary)
    ensures
        r == *v,
{
    SalsaGlobalVariableSummary { name: v.name.clone(), decl_id: v.decl_id }
}

fn clone_decl(d: &SalsaDeclSummary) -> (r: SalsaDeclSummary)
    ensures
        r == *d,
{
    SalsaDeclSummary {
        id: d.id,
        name: d.name.clone(),
        kind: d.kind,
        scope_id: d.scope_id,
        start_offset: d.start_offset,
        value_expr_offset: d.value_expr_offset,
        value_expr_syntax_id: d.value_expr_syntax_id,
        value_result_index: d.value_result_index,
        source_call_syntax_id: d.source_call_syntax_id,
    }
}

pub(crate) fn clone_export_target(t: &SalsaExportTargetSummary) -> (r: SalsaExportTargetSummary)
    ensures
        r@ == t@,
{
    match t {
        SalsaExportTargetSummary::LocalName(n) => SalsaExportTargetSummary::LocalName(n.clone()),
        SalsaExportTargetSummary::Member(p) => SalsaExportTargetSummary::Member(clone_member_path(p)),
        SalsaExportTargetSummary::Closure(o) => SalsaExportTargetSummary::Closure(*o),
        SalsaExportTargetSummary::Table(o) => SalsaExportTargetSummary::Table(*o),
    }
}

pub(crate) fn clone_export(e: &SalsaModuleExportSummary) -> (r: SalsaModuleExportSummary)
    ensures
        r@ == e@,
{
    match e {
        SalsaModuleExportSummary::LocalDecl { name, decl_id } => SalsaModuleExportSummary::LocalDecl {
            name: name.clone(),
            decl_id: *decl_id,
        },
        SalsaModuleExportSummary::GlobalFunction(f) => SalsaModuleExportSummary::GlobalFunction(clone_function(f)),
        SalsaModuleExportSummary::GlobalVariable(v) => SalsaModuleExportSummary::GlobalVariable(clone_variable(v)),
        SalsaModuleExportSummary::Member(m) => SalsaModuleExportSummary::Member(clone_member(m)),
        SalsaModuleExportSummary::Closure { signature_offset } => SalsaModuleExportSummary::Closure {
            signature_offset: *signature_offset,
        },
        SalsaModuleExportSummary::Table { table_offset } => SalsaModuleExportSummary::Table {
            table_offset: *table_offset,
        },
    }
}

/// What the module's `return` names, as written.
pub fn find_module_export_target(module: &SalsaModuleSummary) -> (r: Option<SalsaExportTargetSummary>)
    ensures
        opt_export_target_view(r) == opt_export_target_view(module.export_target),
{
    match &module.export_target {
        Some(t) => Some(clone_export_target(t)),
        None => None,
    }
}

/// What the module's `return` resolved to.
pub fn find_module_export(module: &SalsaModuleSummary) -> (r: Option<SalsaModuleExportSummary>)
    ensures
        opt_export_view(r) == opt_export_view(module.export),
{
    match &module.export {
        Some(e) => Some(clone_export(e)),
        None => None,
    }
}

/// The global function the module returns, if it returns one.
pub fn find_module_exported_global_function(module: &SalsaModuleSummary) -> (r: Option<
    SalsaGlobalFunctionSummary,
>)
    ensures
        r == match module.export {
            Some(SalsaModuleExportSummary::GlobalFunction(f)) => Some(f),
            _ => None,
        },
{
    match &module.export {
        Some(SalsaModuleExportSummary::GlobalFunction(function)) => Some(clone_function(function)),
        _ => None,
    }
}

/// The global variable the module returns, if it returns one.
pub fn find_module_exported_global_variable(module: &SalsaModuleSummary) -> (r: Option<
    SalsaGlobalVariableSummary,
>)
    ensures
        r == match module.export {
            Some(SalsaModuleExportSummary::GlobalVariable(v)) => Some(v),
            _ => None,
        },
{
    match &module.export {
        Some(SalsaModuleExportSummary::GlobalVariable(variable)) => Some(clone_variable(variable)),
        _ => None,
    }
}

/// Whether the module returns the local declaration `decl_id`.
pub fn module_exports_decl(module: &SalsaModuleSummary, decl_id: u32) -> (r: bool)
    ensures
        r == (module.export matches Some(SalsaModuleExportSummary::LocalDecl { decl_id: d, .. })
            && d == decl_id),
{
    match &module.export {
        Some(SalsaModuleExportSummary::LocalDecl { decl_id: exported, .. }) => *exported == decl_id,
        _ => false,
    }
}

/// Whether the module returns the member `member_target`.
pub fn module_exports_member(module: &SalsaModuleSummary, member_target: &SalsaMemberTargetSummary) -> (r:
    bool)
    ensures
        r == (module.export matches Some(SalsaModuleExportSummary::Member(m)) && m.target@
            == member_target@),
{
    match &module.export {
        Some(SalsaModuleExportSummary::Member(member)) => member_targets_equal(&member.target, member_target),
        _ => false,
    }
}

/// Whether the module returns the closure at `signature_offset`.
pub fn module_exports_closure(module: &SalsaModuleSummary, signature_offset: u32) -> (r: bool)
    ensures
        r == (module.export matches Some(SalsaModuleExportSummary::Closure { signature_offset: s })
            && s == signature_offset),
{
    match &module.export {
        Some(SalsaModuleExportSummary::Closure { signature_offset: exported }) => *exported == signature_offset,
        _ => false,
    }
}

/// Whether the module returns the table constructor at `table_offset`.
pub fn module_exports_table(module: &SalsaModuleSummary, table_offset: u32) -> (r: bool)
    ensures
        r == (module.export matches Some(SalsaModuleExportSummary::Table { table_offset: t })
            && t == table_offset),
{
    match &module.export {
        Some(SalsaModuleExportSummary::Table { table_offset: exported }) => *exported == table_offset,
        _ => false,
    }
}

/// Whether the module returns the global function `name`.
pub fn module_exports_global_function(module: &SalsaModuleSummary, name: &str) -> (r: bool)
    ensures
        r == (module.export matches Some(SalsaModuleExportSummary::GlobalFunction(f)) && f.name@
            == name@),
{
    match &module.export {
        Some(SalsaModuleExportSummary::GlobalFunction(function)) => {
            let wanted = name.to_owned();
            function.name == wanted
        },
        _ => false,
    }
}

/// Whether the module returns the global variable `name`.
pub fn module_exports_global_variable(module: &SalsaModuleSummary, name: &str) -> (r: bool)
    ensures
        r == (module.export matches Some(SalsaModuleExportSummary::GlobalVariable(v)) && v.name@
            == name@),
{
    match &module.export {
        Some(SalsaModuleExportSummary::GlobalVariable(variable)) => {
            let wanted = name.to_owned();
            variable.name == wanted
        },
        _ => false,
    }
}

} // verus!

verus! {

#[derive(Clone, Copy, Debug, PartialEq, Eq, Structural)]
pub struct SalsaModuleDeclHandle(pub u32);

#[derive(Clone, Copy, Debug, PartialEq, Eq, Structural)]
pub struct SalsaModuleGlobalFunctionHandle(pub u32);

#[derive(Clone, Copy, Debug, PartialEq, Eq, Structural)]
pub struct SalsaModuleGlobalVariableHandle(pub u32);

#[derive(Clone, Copy, Debug, PartialEq, Eq, Structural)]
pub struct SalsaModuleMemberHandle(pub u32);

/// A name by which the resolve index finds declarations and globals.
#[derive(Clone, Debug)]
pub struct SalsaModuleNameKey(pub String);

/// A path by which the resolve index finds members.
#[derive(Clone, Debug)]
pub struct SalsaModuleMemberPathKey(pub SalsaMemberPathSummary);

/// The declarations, globals and members of a file, found by name or path.
#[derive(Clone, Debug)]
pub struct SalsaModuleResolveIndex {
    pub decls: Vec<SalsaDeclSummary>,
    pub global_functions: Vec<SalsaGlobalFunctionSummary>,
    pub global_variables: Vec<SalsaGlobalVariableSummary>,
    pub members: Vec<SalsaMemberSummary>,
}

pub struct ModuleResolveView {
    pub decls: Seq<SalsaDeclSummary>,
    pub global_functions: Seq<SalsaGlobalFunctionSummary>,
    pub global_variables: Seq<SalsaGlobalVariableSummary>,
    pub members: Seq<MemberView>,
}

impl View for SalsaModuleResolveIndex {
    type V = ModuleResolveView;

    open spec fn view(&self) -> ModuleResolveView {
        ModuleResolveView {
            decls: self.decls@,
            global_functions: self.global_functions@,
            global_variables: self.global_variables@,
            members: self.members@.map_values(|m: SalsaMemberSummary| m@),
        }
    }
}

/// Index of the first member whose path is `path`, or -1.
pub open spec fn first_member_index_with_path(members: Seq<MemberView>, path: MemberPathView) -> int
    decreases members.len(),
{
    if members.len() == 0 {
        -1
    } else if spec_member_target_path(members[0].target) == path {
        0
    } else {
        let r = first_member_index_with_path(members.drop_first(), path);
        if r == -1 { -1 } else { r + 1 }
    }
}

pub proof fn lemma_first_member_index_with_path(members: Seq<MemberView>, path: MemberPathView)
    ensures
        -1 <= first_member_index_with_path(members, path) < members.len(),
        first_member_index_with_path(members, path) >= 0 ==> spec_member_target_path(
            members[first_member_index_with_path(members, path)].target,
        ) == path,
        forall|j: int|
            0 <= j < members.len() && (first_member_index_with_path(members, path) == -1 || j
                < first_member_index_with_path(members, path)) ==> spec_member_target_path(
                members[j].target,
            ) != path,
    decreases members.len(),
{
    if members.len() > 0 && spec_member_target_path(members[0].target) != path {
        lemma_first_member_index_with_path(members.drop_first(), path);
        assert forall|j: int|
            0 <= j < members.len() && (first_member_index_with_path(members, path) == -1 || j
                < first_member_index_with_path(members, path)) implies spec_member_target_path(
            members[j].target,
        ) != path by {
            if j > 0 {
                assert(members[j] == members.drop_first()[j - 1]);
            }
        }
    }
}

/// The handle of the last declaration named `name`.
pub open spec fn spec_find_decl_handle_by_name(index: ModuleResolveView, name: Seq<char>) -> Option<
    SalsaModuleDeclHandle,
> {
    let i = last_index_named(index.decls, name);
    if i >= 0 { Some(SalsaModuleDeclHandle(i as u32)) } else { None }
}

/// The handle of the first global function named `name`.
pub open spec fn spec_find_global_function_handle_by_name(
    index: ModuleResolveView,
    name: Seq<char>,
) -> Option<SalsaModuleGlobalFunctionHandle> {
    let i = first_index_named(index.global_functions, name);
    if i >= 0 { Some(SalsaModuleGlobalFunctionHandle(i as u32)) } else { None }
}

/// The handle of the first global variable named `name`.
pub open spec fn spec_find_global_variable_handle_by_name(
    index: ModuleResolveView,
    name: Seq<char>,
) -> Option<SalsaModuleGlobalVariableHandle> {
    let i = first_index_named(index.global_variables, name);
    if i >= 0 { Some(SalsaModuleGlobalVariableHandle(i as u32)) } else { None }
}

/// The handle of the first member whose path is `path`.
pub open spec fn spec_find_member_handle_by_path(index: ModuleResolveView, path: MemberPathView) -> Option<
    SalsaModuleMemberHandle,
> {
    let i = first_member_index_with_path(index.members, path);
    if i >= 0 { Some(SalsaModuleMemberHandle(i as u32)) } else { None }
}

pub open spec fn spec_decl_at_handle(index: ModuleResolveView, h: SalsaModuleDeclHandle) -> Option<
    SalsaDeclSummary,
> {
    if h.0 < index.decls.len() { Some(index.decls[h.0 as int]) } else { None }
}

pub open spec fn spec_global_function_at_handle(
    index: ModuleResolveView,
    h: SalsaModuleGlobalFunctionHandle,
) -> Option<SalsaGlobalFunctionSummary> {
    if h.0 < index.global_functions.len() { Some(index.global_functions[h.0 as int]) } else { None }
}

pub open spec fn spec_global_variable_at_handle(
    index: ModuleResolveView,
    h: SalsaModuleGlobalVariableHandle,
) -> Option<SalsaGlobalVariableSummary> {
    if h.0 < index.global_variables.len() { Some(index.global_variables[h.0 as int]) } else { None }
}

pub open spec fn spec_member_at_handle(index: ModuleResolveView, h: SalsaModuleMemberHandle) -> Option<
    MemberView,
> {
    if h.0 < index.members.len() { Some(index.members[h.0 as int]) } else { None }
}

/// The global function `name`, as the resolver finds it by handle.
pub open spec fn spec_global_function_export(index: ModuleResolveView, h: SalsaModuleGlobalFunctionHandle) -> Option<
    ModuleExportView,
> {
    match spec_global_function_at_handle(index, h) {
        Some(f) => Some(ModuleExportView::GlobalFunction(f)),
        None => None,
    }
}

pub open spec fn spec_global_variable_export(index: ModuleResolveView, h: SalsaModuleGlobalVariableHandle) -> Option<
    ModuleExportView,
> {
    match spec_global_variable_at_handle(index, h) {
        Some(v) => Some(ModuleExportView::GlobalVariable(v)),
        None => None,
    }
}

/// What a returned name resolves to. A declaration of that name comes first: a
/// local one is returned as it is; a global one as the global function of that
/// name, else the global variable, else the declaration. Without a declaration,
/// the global function of that name, else the global variable.
pub open spec fn spec_resolve_named_export(index: ModuleResolveView, name: Seq<char>) -> Option<
    ModuleExportView,
> {
    match spec_find_decl_handle_by_name(index, name) {
        Some(dh) => match spec_decl_at_handle(index, dh) {
            None => None,
            Some(decl) => {
                let local = Some(ModuleExportView::LocalDecl { name, decl_id: decl.id });
                match decl.kind {
                    SalsaDeclKindSummary::Global => match spec_find_global_function_handle_by_name(index, name) {
                        Some(fh) => spec_global_function_export(index, fh),
                        None => match spec_find_global_variable_handle_by_name(index, name) {
                            Some(vh) => spec_global_variable_export(index, vh),
                            None => local,
                        },
                    },
                    _ => local,
                }
            },
        },
        None => match spec_find_global_function_handle_by_name(index, name) {
            Some(fh) => spec_global_function_export(index, fh),
            None => match spec_find_global_variable_handle_by_name(index, name) {
                Some(vh) => spec_global_variable_export(index, vh),
                None => None,
            },
        },
    }
}

/// What a returned member path resolves to: the first member with that path.
pub open spec fn spec_resolve_member_export(index: ModuleResolveView, path: MemberPathView) -> Option<
    ModuleExportView,
> {
    match spec_find_member_handle_by_path(index, path) {
        Some(h) => match spec_member_at_handle(index, h) {
            Some(m) => Some(ModuleExportView::Member(m)),
            None => None,
        },
        None => None,
    }
}

pub open spec fn spec_resolve_module_export_in_index(index: ModuleResolveView, target: ExportTargetView) -> Option<
    ModuleExportView,
> {
    match target {
        ExportTargetView::LocalName(name) => spec_resolve_named_export(index, name),
        ExportTargetView::Member(path) => spec_resolve_member_export(index, path),
        ExportTargetView::Closure(o) => Some(ModuleExportView::Closure { signature_offset: o }),
        ExportTargetView::Table(o) => Some(ModuleExportView::Table { table_offset: o }),
    }
}

/// The resolve view of a file's declarations, globals and members.
pub open spec fn spec_resolve_view(
    decl_tree: SalsaDeclTreeSummary,
    globals: SalsaGlobalSummary,
    members: SalsaMemberIndexSummary,
) -> ModuleResolveView {
    ModuleResolveView {
        decls: decl_tree.decls@,
        global_functions: globals.functions@,
        global_variables: globals.variables@,
        members: members.members@.map_values(|m: SalsaMemberSummary| m@),
    }
}

fn clone_decls(v: &Vec<SalsaDeclSummary>) -> (r: Vec<SalsaDeclSummary>)
    ensures
        r@ == v@,
{
    let mut r: Vec<SalsaDeclSummary> = Vec::new();
    let mut i: usize = 0;
    while i < v.len()
        invariant
            i <= v@.len(),
            r@ == v@.take(i as int),
        decreases v@.len() - i,
    {
        r.push(clone_decl(&v[i]));
        i = i + 1;
        assert(r@ =~= v@.take(i as int));
    }
    assert(v@.take(i as int) =~= v@);
    r
}

fn clone_functions(v: &Vec<SalsaGlobalFunctionSummary>) -> (r: Vec<SalsaGlobalFunctionSummary>)
    ensures
        r@ == v@,
{
    let mut r: Vec<SalsaGlobalFunctionSummary> = Vec::new();
    let mut i: usize = 0;
    while i < v.len()
        invariant
            i <= v@.len(),
            r@ == v@.take(i as int),
        decreases v@.len() - i,
    {
        r.push(clone_function(&v[i]));
        i = i + 1;
        assert(r@ =~= v@.take(i as int));
    }
    assert(v@.take(i as int) =~= v@);
    r
}

fn clone_variables(v: &Vec<SalsaGlobalVariableSummary>) -> (r: Vec<SalsaGlobalVariableSummary>)
    ensures
        r@ == v@,
{
    let mut r: Vec<SalsaGlobalVariableSummary> = Vec::new();
    let mut i: usize = 0;
    while i < v.len()
        invariant
            i <= v@.len(),
            r@ == v@.take(i as int),
        decreases v@.len() - i,
    {
        r.push(clone_variable(&v[i]));
        i = i + 1;
        assert(r@ =~= v@.take(i as int));
    }
    assert(v@.take(i as int) =~= v@);
    r
}

/// Gathers a file's declarations, globals and members for resolving.
pub fn build_module_resolve_index(
    decl_tree: &SalsaDeclTreeSummary,
    globals: &SalsaGlobalSummary,
    members: &SalsaMemberIndexSummary,
) -> (r: SalsaModuleResolveIndex)
    ensures
        r@ == spec_resolve_view(*decl_tree, *globals, *members),
{
    let r = SalsaModuleResolveIndex {
        decls: clone_decls(&decl_tree.decls),
        global_functions: clone_functions(&globals.functions),
        global_variables: clone_variables(&globals.variables),
        members: clone_members(&members.members),
    };
    assert(r@.members =~= spec_resolve_view(*decl_tree, *globals, *members).members);
    r
}

/// Finds the last declaration named `name`.
pub fn find_decl_handle_by_name(index: &SalsaModuleResolveIndex, name: &str) -> (r: Option<SalsaModuleDeclHandle>)
    ensures
        r == spec_find_decl_handle_by_name(index@, name@),
{
    let key = name.to_owned();
    match find_last_named(&index.decls, &key) {
        Some(i) => Some(SalsaModuleDeclHandle(i as u32)),
        None => None,
    }
}

/// Finds the first global function named `name`.
pub fn find_global_function_handle_by_name(index: &SalsaModuleResolveIndex, name: &str) -> (r: Option<
    SalsaModuleGlobalFunctionHandle,
>)
    ensures
        r == spec_find_global_function_handle_by_name(index@, name@),
{
    let key = name.to_owned();
    match find_first_named(&index.global_functions, &key) {
        Some(i) => Some(SalsaModuleGlobalFunctionHandle(i as u32)),
        None => None,
    }
}

/// Finds the first global variable named `name`.
pub fn find_global_variable_handle_by_name(index: &SalsaModuleResolveIndex, name: &str) -> (r: Option<
    SalsaModuleGlobalVariableHandle,
>)
    ensures
        r == spec_find_global_variable_handle_by_name(index@, name@),
{
    let key = name.to_owned();
    match find_first_named(&index.global_variables, &key) {
        Some(i) => Some(SalsaModuleGlobalVariableHandle(i as u32)),
        None => None,
    }
}

/// Finds the first member whose path is `path`.
pub fn find_member_handle_by_path(index: &SalsaModuleResolveIndex, path: &SalsaMemberPathSummary) -> (r: Option<
    SalsaModuleMemberHandle,
>)
    ensures
        r == spec_find_member_handle_by_path(index@, path@),
{
    proof { lemma_first_member_index_with_path(index@.members, path@); }
    let mut i: usize = 0;
    while i < index.members.len()
        invariant
            i <= index.members@.len(),
            forall|j: int| 0 <= j < i ==> spec_member_target_path(index@.members[j].target) != path@,
            -1 <= first_member_index_with_path(index@.members, path@) < index.members@.len(),
            first_member_index_with_path(index@.members, path@) >= 0 ==> spec_member_target_path(
                index@.members[first_member_index_with_path(index@.members, path@)].target,
            ) == path@,
            forall|j: int|
                0 <= j < index.members@.len() && (first_member_index_with_path(index@.members, path@) == -1
                    || j < first_member_index_with_path(index@.members, path@)) ==> spec_member_target_path(
                    index@.members[j].target,
                ) != path@,
        decreases index.members@.len() - i,
    {
        assert(index@.members[i as int] == index.members@[i as int]@);
        let member_path = member_target_path(&index.members[i].target);
        if member_paths_equal(&member_path, path) {
            return Some(SalsaModuleMemberHandle(i as u32));
        }
        i = i + 1;
    }
    None
}

pub fn decl_at_handle(index: &SalsaModuleResolveIndex, handle: SalsaModuleDeclHandle) -> (r: Option<
    &SalsaDeclSummary,
>)
    ensures
        match r {
            Some(d) => spec_decl_at_handle(index@, handle) == Some(*d),
            None => spec_decl_at_handle(index@, handle).is_none(),
        },
{
    let i = handle.0 as usize;
    if i < index.decls.len() { Some(&index.decls[i]) } else { None }
}

pub fn global_function_at_handle(index: &SalsaModuleResolveIndex, handle: SalsaModuleGlobalFunctionHandle) -> (r:
    Option<&SalsaGlobalFunctionSummary>)
    ensures
        match r {
            Some(f) => spec_global_function_at_handle(index@, handle) == Some(*f),
            None => spec_global_function_at_handle(index@, handle).is_none(),
        },
{
    let i = handle.0 as usize;
    if i < index.global_functions.len() { Some(&index.global_functions[i]) } else { None }
}

pub fn global_variable_at_handle(index: &SalsaModuleResolveIndex, handle: SalsaModuleGlobalVariableHandle) -> (r:
    Option<&SalsaGlobalVariableSummary>)
    ensures
        match r {
            Some(v) => spec_global_variable_at_handle(index@, handle) == Some(*v),
            None => spec_global_variable_at_handle(index@, handle).is_none(),
        },
{
    let i = handle.0 as usize;
    if i < index.global_variables.len() { Some(&index.global_variables[i]) } else { None }
}

pub fn member_at_handle(index: &SalsaModuleResolveIndex, handle: SalsaModuleMemberHandle) -> (r: Option<
    &SalsaMemberSummary,
>)
    ensures
        match r {
            Some(m) => spec_member_at_handle(index@, handle) == Some(m@),
            None => spec_member_at_handle(index@, handle).is_none(),
        },
{
    let i = handle.0 as usize;
    if i < index.members.len() { Some(&index.members[i]) } else { None }
}

fn global_function_export(index: &SalsaModuleResolveIndex, handle: SalsaModuleGlobalFunctionHandle) -> (r: Option<
    SalsaModuleExportSummary,
>)
    ensures
        opt_export_view(r) == spec_global_function_export(index@, handle),
{
    match global_function_at_handle(index, handle) {
        Some(f) => Some(SalsaModuleExportSummary::GlobalFunction(clone_function(f))),
        None => None,
    }
}

fn global_variable_export(index: &SalsaModuleResolveIndex, handle: SalsaModuleGlobalVariableHandle) -> (r: Option<
    SalsaModuleExportSummary,
>)
    ensures
        opt_export_view(r) == spec_global_variable_export(index@, handle),
{
    match global_variable_at_handle(index, handle) {
        Some(v) => Some(SalsaModuleExportSummary::GlobalVariable(clone_variable(v))),
        None => None,
    }
}

fn resolve_member_export(target: &SalsaMemberPathSummary, index: &SalsaModuleResolveIndex) -> (r: Option<
    SalsaModuleExportSummary,
>)
    ensures
        opt_export_view(r) == spec_resolve_member_export(index@, target@),
{
    let handle = match find_member_handle_by_path(index, target) {
        Some(h) => h,
        None => {
            return None;
        },
    };
    match member_at_handle(index, handle) {
        Some(m) => Some(SalsaModuleExportSummary::Member(clone_member(m))),
        None => None,
    }
}

fn resolve_named_export(name: &str, index: &SalsaModuleResolveIndex) -> (r: Option<SalsaModuleExportSummary>)
    ensures
        opt_export_view(r) == spec_resolve_named_export(index@, name@),
{
    if let Some(decl_handle) = find_decl_handle_by_name(index, name) {
        let decl = match decl_at_handle(index, decl_handle) {
            Some(d) => d,
            None => {
                return None;
            },
        };
        match decl.kind {
            SalsaDeclKindSummary::Global => {
                if let Some(function_handle) = find_global_function_handle_by_name(index, name) {
                    return global_function_export(index, function_handle);
                }
                if let Some(variable_handle) = find_global_variable_handle_by_name(index, name) {
                    return global_variable_export(index, variable_handle);
                }
                Some(SalsaModuleExportSummary::LocalDecl { name: name.to_owned(), decl_id: decl.id })
            },
            _ => Some(SalsaModuleExportSummary::LocalDecl { name: name.to_owned(), decl_id: decl.id }),
        }
    } else if let Some(function_handle) = find_global_function_handle_by_name(index, name) {
        global_function_export(index, function_handle)
    } else {
        let variable_handle = match find_global_variable_handle_by_name(index, name) {
            Some(h) => h,
            None => {
                return None;
            },
        };
        global_variable_export(index, variable_handle)
    }
}

/// Resolves what a module's `return` names: a name or a member path is looked up
/// in the index; a closure or a table constructor stands for itself.
pub fn resolve_module_export_in_index(export_target: &SalsaExportTargetSummary, index: &SalsaModuleResolveIndex) -> (r:
    Option<SalsaModuleExportSummary>)
    ensures
        opt_export_view(r) == spec_resolve_module_export_in_index(index@, export_target@),
{
    match export_target {
        SalsaExportTargetSummary::LocalName(name) => resolve_named_export(name.as_str(), index),
        SalsaExportTargetSummary::Member(target) => resolve_member_export(target, index),
        SalsaExportTargetSummary::Closure(signature_offset) => Some(
            SalsaModuleExportSummary::Closure { signature_offset: *signature_offset },
        ),
        SalsaExportTargetSummary::Table(table_offset) => Some(
            SalsaModuleExportSummary::Table { table_offset: *table_offset },
        ),
    }
}

/// Resolves what a module's `return` names against a file's declarations,
/// globals and members.
pub fn resolve_module_export(
    export_target: &SalsaExportTargetSummary,
    decl_tree: &SalsaDeclTreeSummary,
    globals: &SalsaGlobalSummary,
    members: &SalsaMemberIndexSummary,
) -> (r: Option<SalsaModuleExportSummary>)
    ensures
        opt_export_view(r) == spec_resolve_module_export_in_index(
            spec_resolve_view(*decl_tree, *globals, *members),
            export_target@,
        ),
{
    let index = build_module_resolve_index(decl_tree, globals, members);
    resolve_module_export_in_index(export_target, &index)
}

} // verus!
