# emmylua_query

A verified library of the query layer of a Lua language server's analysis: the
summaries that the analysis builds of one file (declarations, scopes, uses,
members, properties, documentation tags, doc types, control flow, signatures and
calls) and the queries that answer questions about them. Every function in
`src/` is checked by Verus against its `requires` / `ensures` contract, but for
the few marked `#[verifier::external_body]` that call into the parser crate,
whose contracts are taken as given (see below).

Layout of `src/`:

- `offsets`, `name_order`, `lookup`: sorted sets of offsets and names, and lookups by key or name.
- `assignments`, `assignment_flow`: the assignments to local declarations read from the file's `local` and assignment statements, and those that reach a program point through the blocks, `if` clauses and `do` blocks before it.
- `narrow_sites`, `program_point`: the narrowings that `if` clauses, guard clauses and `assert` calls put on a local at a program point, and the type candidates of a name there, followed through the locals it copies and the calls it takes a result of.
- `decls`, `members`, `module`, `uses`, `lexical`, `property`: declarations and scopes, member targets, module exports and globals, use sites, and properties.
- `doc_tag`, `doc_diagnostics`, `doc_owner`, `doc_type`, `doc_type_chains`, `doc_type_resolved`: documentation tags, the text each `---@diagnostic` action applies to, the statements they document, doc types with their lowered (flattened) forms, the check that the chains of unions and intersections end, which lowering needs, and each doc type paired with its lowered form.
- `flow_model`, `flow`, `flow_graph`: the control-flow summary of a file, its edges, reachability and the graphs of conditions, branches and loops.
- `type_info`, `type_index`, `type_candidates`, `global_types`, `narrow`, `iterator_slots`: the type information of declarations, globals and members, narrowing of doc types, and the doc types a `for ... in` loop variable takes.
- `signature_model`, `signature_return`, `signature_explain`: what the solver reads of signatures and calls, what a signature returns, each parameter with the `---@param` tag that documents it, and the choice of the signatures that fit a call best.
- `semantic_graph`, `graph_build`, `scc`, `semantic_scc`: the semantic value graph of a file and its strongly connected components.
- `semantic_solver`, `solver_shells`, `solver_summaries`, `solver_execution`, `solver_run`, `solver_component`, `value_summaries`, `semantic`: the solver that resolves the values of the graph component by component, and what a run of its steps does from the first execution to the last.
- `laws`: properties that span several functions, stated and proved.

Two places call into the parser crate: `lua_syntax_kind_class` (in `type_info`)
asks it what kind of syntax node a raw kind names, and `doc_diagnostics` asks its
line index where the lines of a file start and which line holds an offset.

The library reads a file through plain summaries of its parsed chunk: the
`local` and assignment statements (`SalsaAssignStatSummary`), the block
structure (`SalsaBlockSummary`) and the sites that narrow (`SalsaNarrowSiteIndexSummary`).
`app/` fills them from the parser's syntax tree.

Some results that the analysis computes elsewhere enter these functions as
arguments, already built: the call explains of a file
(`SalsaSignatureExplainIndex`: the signatures a call may call, the one it
resolves to, and the doc types it returns), the `---@return_overload` rows of the
signature each call resolves to (`SalsaCallReturnOverloadIndex`), the types of
members at a program point (`SalsaProgramPointMemberTypeInfoSummary`), the
iterator sources of `for ... in` loops (`SalsaForRangeIterQueryIndex`) and the
member type index (`SalsaMemberTypeQueryIndex`). The functions here are
verified for every value of them.
