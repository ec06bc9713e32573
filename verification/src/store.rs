//! The ingestion engine: an idempotent property-graph store.
//!
//! The graph holds File, Class/Function/Symbol and Module nodes and the
//! CONTAINS, IMPORTS_FROM, CALLS and INHERITS relationships, each keyed by
//! an identity so that every write is a merge: re-ingesting a file
//! overwrites its properties and creates no duplicate node or edge.

use vstd::prelude::*;
use vstd::string::*;
use crate::lang::spec_lang_name;
use crate::facts::{ParsingResult, ParsingResultV, SymbolV, ImportV};
use crate::encode::{
    spec_file_id, spec_symbol_id, spec_json_params, spec_join_comma, file_id_of, symbol_id_of,
    params_json, join_comma,
};
use crate::keyed::{
    first_key_at, lemma_first_key_at, spec_upsert, spec_upsert_all, unique_keys, id_key,
    concat_fold, lemma_upsert_all_idem, lemma_upsert_all_shape, lemma_upsert_all_snoc,
};
use crate::text::spec_replace;

verus! {

/// A File node.
pub struct FileNode {
    pub id: String,
    pub path: String,
    pub repo: String,
    pub language: String,
    pub imports: Vec<String>,
    pub exports: Vec<String>,
}

/// Spec view of a `FileNode`.
#[verifier::ext_equal]
pub ghost struct FileNodeV {
    pub id: Seq<char>,
    pub path: Seq<char>,
    pub repo: Seq<char>,
    pub language: Seq<char>,
    pub imports: Seq<Seq<char>>,
    pub exports: Seq<Seq<char>>,
}

impl DeepView for FileNode {
    type V = FileNodeV;

    open spec fn deep_view(&self) -> FileNodeV {
        FileNodeV {
            id: self.id@,
            path: self.path@,
            repo: self.repo@,
            language: self.language@,
            imports: self.imports.deep_view(),
            exports: self.exports.deep_view(),
        }
    }
}

/// A symbol node, labelled Class, Function or Symbol.
pub struct SymNode {
    pub id: String,
    pub label: String,
    pub name: String,
    pub kind: String,
    pub preview: String,
    pub doc: String,
    pub sig: String,
    pub ret: String,
    pub vis: String,
    pub parent: String,
    pub params: String,
    pub decos: String,
    pub line_start: u64,
    pub line_end: u64,
}

/// Spec view of a `SymNode`.
#[verifier::ext_equal]
pub ghost struct SymNodeV {
    pub id: Seq<char>,
    pub label: Seq<char>,
    pub name: Seq<char>,
    pub kind: Seq<char>,
    pub preview: Seq<char>,
    pub doc: Seq<char>,
    pub sig: Seq<char>,
    pub ret: Seq<char>,
    pub vis: Seq<char>,
    pub parent: Seq<char>,
    pub params: Seq<char>,
    pub decos: Seq<char>,
    pub line_start: int,
    pub line_end: int,
}

impl DeepView for SymNode {
    type V = SymNodeV;

    open spec fn deep_view(&self) -> SymNodeV {
        SymNodeV {
            id: self.id@,
            label: self.label@,
            name: self.name@,
            kind: self.kind@,
            preview: self.preview@,
            doc: self.doc@,
            sig: self.sig@,
            ret: self.ret@,
            vis: self.vis@,
            parent: self.parent@,
            params: self.params@,
            decos: self.decos@,
            line_start: self.line_start as int,
            line_end: self.line_end as int,
        }
    }
}

/// A Module node, scoped to a repository.
pub struct ModuleNode {
    pub name: String,
    pub repo: String,
}

/// Spec view of a `ModuleNode`.
#[verifier::ext_equal]
pub ghost struct ModuleNodeV {
    pub name: Seq<char>,
    pub repo: Seq<char>,
}

impl DeepView for ModuleNode {
    type V = ModuleNodeV;

    open spec fn deep_view(&self) -> ModuleNodeV {
        ModuleNodeV { name: self.name@, repo: self.repo@ }
    }
}

/// A CONTAINS edge from a File to a symbol node.
pub struct ContainsEdge {
    pub file_id: String,
    pub symbol_id: String,
}

/// Spec view of a `ContainsEdge`.
#[verifier::ext_equal]
pub ghost struct ContainsEdgeV {
    pub file_id: Seq<char>,
    pub symbol_id: Seq<char>,
}

impl DeepView for ContainsEdge {
    type V = ContainsEdgeV;

    open spec fn deep_view(&self) -> ContainsEdgeV {
        ContainsEdgeV { file_id: self.file_id@, symbol_id: self.symbol_id@ }
    }
}

/// An IMPORTS_FROM edge, carrying the imported names.
pub struct ImportEdge {
    pub file_id: String,
    pub module_name: String,
    pub module_repo: String,
    pub names: Vec<String>,
}

/// Spec view of an `ImportEdge`.
#[verifier::ext_equal]
pub ghost struct ImportEdgeV {
    pub file_id: Seq<char>,
    pub module_name: Seq<char>,
    pub module_repo: Seq<char>,
    pub names: Seq<Seq<char>>,
}

impl DeepView for ImportEdge {
    type V = ImportEdgeV;

    open spec fn deep_view(&self) -> ImportEdgeV {
        ImportEdgeV {
            file_id: self.file_id@,
            module_name: self.module_name@,
            module_repo: self.module_repo@,
            names: self.names.deep_view(),
        }
    }
}

/// A CALLS edge between two Function nodes.
pub struct CallEdge {
    pub caller_id: String,
    pub callee_id: String,
}

/// Spec view of a `CallEdge`.
#[verifier::ext_equal]
pub ghost struct CallEdgeV {
    pub caller_id: Seq<char>,
    pub callee_id: Seq<char>,
}

impl DeepView for CallEdge {
    type V = CallEdgeV;

    open spec fn deep_view(&self) -> CallEdgeV {
        CallEdgeV { caller_id: self.caller_id@, callee_id: self.callee_id@ }
    }
}

/// An INHERITS edge between two Class nodes.
pub struct InheritEdge {
    pub child_id: String,
    pub parent_id: String,
}

/// Spec view of an `InheritEdge`.
#[verifier::ext_equal]
pub ghost struct InheritEdgeV {
    pub child_id: Seq<char>,
    pub parent_id: Seq<char>,
}

impl DeepView for InheritEdge {
    type V = InheritEdgeV;

    open spec fn deep_view(&self) -> InheritEdgeV {
        InheritEdgeV { child_id: self.child_id@, parent_id: self.parent_id@ }
    }
}

/// The whole graph store.
pub struct GraphStore {
    pub schema_ready: bool,
    pub files: Vec<FileNode>,
    pub symbols: Vec<SymNode>,
    pub modules: Vec<ModuleNode>,
    pub contains: Vec<ContainsEdge>,
    pub imports_from: Vec<ImportEdge>,
    pub calls: Vec<CallEdge>,
    pub inherits: Vec<InheritEdge>,
}

/// Spec view of the whole graph store.
#[verifier::ext_equal]
pub ghost struct GraphStoreV {
    pub schema_ready: bool,
    pub files: Seq<FileNodeV>,
    pub symbols: Seq<SymNodeV>,
    pub modules: Seq<ModuleNodeV>,
    pub contains: Seq<ContainsEdgeV>,
    pub imports_from: Seq<ImportEdgeV>,
    pub calls: Seq<CallEdgeV>,
    pub inherits: Seq<InheritEdgeV>,
}

impl DeepView for GraphStore {
    type V = GraphStoreV;

    open spec fn deep_view(&self) -> GraphStoreV {
        GraphStoreV {
            schema_ready: self.schema_ready,
            files: self.files.deep_view(),
            symbols: self.symbols.deep_view(),
            modules: self.modules.deep_view(),
            contains: self.contains.deep_view(),
            imports_from: self.imports_from.deep_view(),
            calls: self.calls.deep_view(),
            inherits: self.inherits.deep_view(),
        }
    }
}

/// The merge key of a File node: its identity string.
pub open spec fn file_key() -> spec_fn(FileNodeV) -> Seq<char> {
    |f: FileNodeV| f.id
}

/// The merge key of a symbol node: its identity string.
pub open spec fn sym_key() -> spec_fn(SymNodeV) -> Seq<char> {
    |s: SymNodeV| s.id
}

/// Well-formedness of a store: merges have kept every identity unique and
/// every edge and module a set member, not a duplicate.
pub open spec fn wf_store(g: GraphStoreV) -> bool {
    &&& unique_keys(g.files, file_key())
    &&& unique_keys(g.symbols, sym_key())
    &&& unique_keys(g.modules, id_key::<ModuleNodeV>())
    &&& unique_keys(g.contains, id_key::<ContainsEdgeV>())
    &&& unique_keys(g.imports_from, id_key::<ImportEdgeV>())
    &&& unique_keys(g.calls, id_key::<CallEdgeV>())
    &&& unique_keys(g.inherits, id_key::<InheritEdgeV>())
}

/// The value of an optional property: the value or the empty string.
pub open spec fn opt_or_empty(o: Option<Seq<char>>) -> Seq<char> {
    match o {
        Option::Some(v) => v,
        Option::None => Seq::empty(),
    }
}

/// The node label of a symbol kind: Class, Function, or Symbol.
pub open spec fn spec_label_of(kind: Seq<char>) -> Seq<char> {
    if kind == "class"@ {
        "Class"@
    } else if kind == "function"@ || kind == "method"@ {
        "Function"@
    } else {
        "Symbol"@
    }
}

/// The File node one ingestion writes.
pub open spec fn spec_file_node(repo: Seq<char>, path: Seq<char>, facts: ParsingResultV)
    -> FileNodeV {
    FileNodeV {
        id: spec_file_id(repo, path),
        path: path,
        repo: repo,
        language: spec_lang_name(facts.language),
        imports: facts.imports.map_values(|i: ImportV| i.raw),
        exports: facts.exports,
    }
}

/// What one import contributes to the Module nodes.
pub open spec fn module_fn(repo: Seq<char>) -> spec_fn(ImportV) -> Seq<ModuleNodeV> {
    |imp: ImportV|
        match imp.source {
            Option::Some(src) => seq![
                ModuleNodeV { name: spec_replace(src, "."@, "/"@), repo: repo },
            ],
            Option::None => Seq::empty(),
        }
}

/// The Module nodes an import list yields: one per import with a source,
/// its dots replaced by slashes.
pub open spec fn spec_module_items(imports: Seq<ImportV>, repo: Seq<char>) -> Seq<ModuleNodeV> {
    concat_fold(imports, module_fn(repo))
}

/// What one import contributes to the IMPORTS_FROM edges.
pub open spec fn iedge_fn(fid: Seq<char>, repo: Seq<char>) -> spec_fn(ImportV) -> Seq<
    ImportEdgeV,
> {
    |imp: ImportV|
        match imp.source {
            Option::Some(src) => seq![
                ImportEdgeV {
                    file_id: fid,
                    module_name: spec_replace(src, "."@, "/"@),
                    module_repo: repo,
                    names: imp.names,
                },
            ],
            Option::None => Seq::empty(),
        }
}

/// The IMPORTS_FROM edges an import list yields.
pub open spec fn spec_import_edge_items(
    imports: Seq<ImportV>,
    fid: Seq<char>,
    repo: Seq<char>,
) -> Seq<ImportEdgeV> {
    concat_fold(imports, iedge_fn(fid, repo))
}

/// The stored node of one extracted symbol.
pub open spec fn spec_sym_node(sym: SymbolV, fid: Seq<char>) -> SymNodeV {
    SymNodeV {
        id: spec_symbol_id(fid, sym.name, sym.range.0),
        label: spec_label_of(sym.kind),
        name: sym.name,
        kind: sym.kind,
        preview: sym.content_preview,
        doc: opt_or_empty(sym.docstring),
        sig: opt_or_empty(sym.signature),
        ret: opt_or_empty(sym.return_type),
        vis: opt_or_empty(sym.visibility),
        parent: opt_or_empty(sym.parent_class),
        params: spec_json_params(sym.params),
        decos: spec_join_comma(sym.decorators),
        line_start: sym.range.0,
        line_end: sym.range.1,
    }
}

/// What one extracted symbol contributes to one label's node batch.
pub open spec fn symnode_fn(fid: Seq<char>, label: Seq<char>) -> spec_fn(SymbolV) -> Seq<
    SymNodeV,
> {
    |sym: SymbolV|
        if spec_label_of(sym.kind) == label {
            seq![spec_sym_node(sym, fid)]
        } else {
            Seq::empty()
        }
}

/// The symbol nodes of one label's batch, in source order.
pub open spec fn spec_syms_with_label(
    symbols: Seq<SymbolV>,
    fid: Seq<char>,
    label: Seq<char>,
) -> Seq<SymNodeV> {
    concat_fold(symbols, symnode_fn(fid, label))
}

/// What one extracted symbol contributes to one label's CONTAINS batch.
pub open spec fn contains_fn(fid: Seq<char>, label: Seq<char>) -> spec_fn(SymbolV) -> Seq<
    ContainsEdgeV,
> {
    |sym: SymbolV|
        if spec_label_of(sym.kind) == label {
            seq![
                ContainsEdgeV {
                    file_id: fid,
                    symbol_id: spec_symbol_id(fid, sym.name, sym.range.0),
                },
            ]
        } else {
            Seq::empty()
        }
}

/// The CONTAINS edges of one label's batch.
pub open spec fn spec_contains_with_label(
    symbols: Seq<SymbolV>,
    fid: Seq<char>,
    label: Seq<char>,
) -> Seq<ContainsEdgeV> {
    concat_fold(symbols, contains_fn(fid, label))
}

/// All symbol nodes one ingestion writes, batched Class, then Function,
/// then Symbol.
pub open spec fn spec_sym_items(symbols: Seq<SymbolV>, fid: Seq<char>) -> Seq<SymNodeV> {
    spec_syms_with_label(symbols, fid, "Class"@) + spec_syms_with_label(symbols, fid, "Function"@)
        + spec_syms_with_label(symbols, fid, "Symbol"@)
}

/// All CONTAINS edges one ingestion writes, in batch order.
pub open spec fn spec_contains_items(symbols: Seq<SymbolV>, fid: Seq<char>) -> Seq<
    ContainsEdgeV,
> {
    spec_contains_with_label(symbols, fid, "Class"@) + spec_contains_with_label(
        symbols,
        fid,
        "Function"@,
    ) + spec_contains_with_label(symbols, fid, "Symbol"@)
}

/// Whether some file of repository `repo` has identity `fid`.
pub open spec fn spec_file_in_repo(files: Seq<FileNodeV>, fid: Seq<char>, repo: Seq<char>)
    -> bool {
    exists|j: int| 0 <= j < files.len() && (#[trigger] files[j]).id == fid && files[j].repo == repo
}

/// Whether the symbol with identity `sid` is contained in some file of
/// repository `repo`.
pub open spec fn spec_contained_in_repo(
    contains: Seq<ContainsEdgeV>,
    files: Seq<FileNodeV>,
    sid: Seq<char>,
    repo: Seq<char>,
) -> bool {
    exists|i: int|
        0 <= i < contains.len() && (#[trigger] contains[i]).symbol_id == sid && spec_file_in_repo(
            files,
            contains[i].file_id,
            repo,
        )
}

/// Whether a node with identity `cid` and label `label` exists.
pub open spec fn spec_node_ok(symbols: Seq<SymNodeV>, cid: Seq<char>, label: Seq<char>) -> bool {
    exists|i: int|
        0 <= i < symbols.len() && (#[trigger] symbols[i]).id == cid && symbols[i].label == label
}

/// The CALLS edges one callee name resolves to: every Function node with
/// that name contained in a file of the repository.
pub open spec fn spec_callee_edges(
    symbols: Seq<SymNodeV>,
    contains: Seq<ContainsEdgeV>,
    files: Seq<FileNodeV>,
    cid: Seq<char>,
    nm: Seq<char>,
    repo: Seq<char>,
) -> Seq<CallEdgeV> {
    concat_fold(symbols, callee_t_fn(contains, files, cid, nm, repo))
}

/// What one stored node contributes as a callee for one name.
pub open spec fn callee_t_fn(
    contains: Seq<ContainsEdgeV>,
    files: Seq<FileNodeV>,
    cid: Seq<char>,
    nm: Seq<char>,
    repo: Seq<char>,
) -> spec_fn(SymNodeV) -> Seq<CallEdgeV> {
    |t: SymNodeV|
        if t.label == "Function"@ && t.name == nm && spec_contained_in_repo(
            contains,
            files,
            t.id,
            repo,
        ) {
            seq![CallEdgeV { caller_id: cid, callee_id: t.id }]
        } else {
            Seq::empty()
        }
}

/// The callee edges of every called name of one caller.
pub open spec fn callee_nm_fn(
    symbols: Seq<SymNodeV>,
    contains: Seq<ContainsEdgeV>,
    files: Seq<FileNodeV>,
    cid: Seq<char>,
    repo: Seq<char>,
) -> spec_fn(Seq<char>) -> Seq<CallEdgeV> {
    |nm: Seq<char>| spec_callee_edges(symbols, contains, files, cid, nm, repo)
}

/// All CALLS edges one ingestion resolves, against the store as it stands
/// after the file's symbols were merged.
pub open spec fn spec_call_items(
    symbols: Seq<SymNodeV>,
    contains: Seq<ContainsEdgeV>,
    files: Seq<FileNodeV>,
    facts_syms: Seq<SymbolV>,
    fid: Seq<char>,
    repo: Seq<char>,
) -> Seq<CallEdgeV> {
    concat_fold(facts_syms, call_sym_fn(symbols, contains, files, fid, repo))
}

/// What one extracted symbol contributes to the CALLS batch.
pub open spec fn call_sym_fn(
    symbols: Seq<SymNodeV>,
    contains: Seq<ContainsEdgeV>,
    files: Seq<FileNodeV>,
    fid: Seq<char>,
    repo: Seq<char>,
) -> spec_fn(SymbolV) -> Seq<CallEdgeV> {
    |sym: SymbolV|
        {
            let cid = spec_symbol_id(fid, sym.name, sym.range.0);
            if spec_node_ok(symbols, cid, "Function"@) {
                concat_fold(sym.calls, callee_nm_fn(symbols, contains, files, cid, repo))
            } else {
                Seq::empty()
            }
        }
}

/// The INHERITS edges one base name resolves to.
pub open spec fn spec_parent_edges(
    symbols: Seq<SymNodeV>,
    contains: Seq<ContainsEdgeV>,
    files: Seq<FileNodeV>,
    cid: Seq<char>,
    base: Seq<char>,
    repo: Seq<char>,
) -> Seq<InheritEdgeV> {
    concat_fold(symbols, parent_t_fn(contains, files, cid, base, repo))
}

/// What one stored node contributes as a base class for one name.
pub open spec fn parent_t_fn(
    contains: Seq<ContainsEdgeV>,
    files: Seq<FileNodeV>,
    cid: Seq<char>,
    base: Seq<char>,
    repo: Seq<char>,
) -> spec_fn(SymNodeV) -> Seq<InheritEdgeV> {
    |t: SymNodeV|
        if t.label == "Class"@ && t.name == base && spec_contained_in_repo(
            contains,
            files,
            t.id,
            repo,
        ) {
            seq![InheritEdgeV { child_id: cid, parent_id: t.id }]
        } else {
            Seq::empty()
        }
}

/// The parent edges of every base name of one child class.
pub open spec fn parent_b_fn(
    symbols: Seq<SymNodeV>,
    contains: Seq<ContainsEdgeV>,
    files: Seq<FileNodeV>,
    cid: Seq<char>,
    repo: Seq<char>,
) -> spec_fn(Seq<char>) -> Seq<InheritEdgeV> {
    |b: Seq<char>| spec_parent_edges(symbols, contains, files, cid, b, repo)
}

/// All INHERITS edges one ingestion resolves.
pub open spec fn spec_inherit_items(
    symbols: Seq<SymNodeV>,
    contains: Seq<ContainsEdgeV>,
    files: Seq<FileNodeV>,
    facts_syms: Seq<SymbolV>,
    fid: Seq<char>,
    repo: Seq<char>,
) -> Seq<InheritEdgeV> {
    concat_fold(facts_syms, inh_sym_fn(symbols, contains, files, fid, repo))
}

/// What one extracted symbol contributes to the INHERITS batch.
pub open spec fn inh_sym_fn(
    symbols: Seq<SymNodeV>,
    contains: Seq<ContainsEdgeV>,
    files: Seq<FileNodeV>,
    fid: Seq<char>,
    repo: Seq<char>,
) -> spec_fn(SymbolV) -> Seq<InheritEdgeV> {
    |sym: SymbolV|
        {
            let cid = spec_symbol_id(fid, sym.name, sym.range.0);
            if sym.kind == "class"@ && sym.bases.len() > 0 && spec_node_ok(symbols, cid, "Class"@) {
                concat_fold(sym.bases, parent_b_fn(symbols, contains, files, cid, repo))
            } else {
                Seq::empty()
            }
        }
}

/// What one ingestion does to the graph: merge the File node, merge the
/// Module nodes and IMPORTS_FROM edges, merge the symbol nodes and their
/// CONTAINS edges batch by batch, then resolve and merge CALLS and
/// INHERITS edges against the store as it now stands.
pub open spec fn spec_ingest(
    g: GraphStoreV,
    repo: Seq<char>,
    path: Seq<char>,
    facts: ParsingResultV,
) -> GraphStoreV {
    let fid = spec_file_id(repo, path);
    let files2 = spec_upsert(g.files, file_key(), spec_file_node(repo, path, facts));
    let modules2 = spec_upsert_all(
        g.modules,
        id_key::<ModuleNodeV>(),
        spec_module_items(facts.imports, repo),
    );
    let iedges2 = spec_upsert_all(
        g.imports_from,
        id_key::<ImportEdgeV>(),
        spec_import_edge_items(facts.imports, fid, repo),
    );
    let symbols2 = spec_upsert_all(g.symbols, sym_key(), spec_sym_items(facts.symbols, fid));
    let contains2 = spec_upsert_all(
        g.contains,
        id_key::<ContainsEdgeV>(),
        spec_contains_items(facts.symbols, fid),
    );
    let calls2 = spec_upsert_all(
        g.calls,
        id_key::<CallEdgeV>(),
        spec_call_items(symbols2, contains2, files2, facts.symbols, fid, repo),
    );
    let inherits2 = spec_upsert_all(
        g.inherits,
        id_key::<InheritEdgeV>(),
        spec_inherit_items(symbols2, contains2, files2, facts.symbols, fid, repo),
    );
    GraphStoreV {
        schema_ready: g.schema_ready,
        files: files2,
        symbols: symbols2,
        modules: modules2,
        contains: contains2,
        imports_from: iedges2,
        calls: calls2,
        inherits: inherits2,
    }
}

/// Ingestion is idempotent: on a well-formed store, ingesting the same
/// repository, path and facts twice leaves the graph exactly as ingesting
/// them once does — no duplicate nodes or edges, no property churn.
pub proof fn lemma_ingest_idempotent(
    g: GraphStoreV,
    repo: Seq<char>,
    path: Seq<char>,
    facts: ParsingResultV,
)
    requires
        wf_store(g),
    ensures
        wf_store(spec_ingest(g, repo, path, facts)),
        spec_ingest(spec_ingest(g, repo, path, facts), repo, path, facts) == spec_ingest(
            g,
            repo,
            path,
            facts,
        ),
{
    let fid = spec_file_id(repo, path);
    let fv = spec_file_node(repo, path, facts);
    let h = spec_ingest(g, repo, path, facts);
    let fitems = seq![fv];
    assert(fitems.subrange(1, 1) =~= Seq::<FileNodeV>::empty());
    assert(fitems[0] == fv);
    assert(spec_upsert_all(spec_upsert(g.files, file_key(), fv), file_key(), fitems.subrange(
        1,
        1,
    )) == spec_upsert(g.files, file_key(), fv));
    assert(spec_upsert_all(g.files, file_key(), fitems) == spec_upsert(g.files, file_key(), fv));
    assert(spec_upsert_all(spec_upsert(h.files, file_key(), fv), file_key(), fitems.subrange(
        1,
        1,
    )) == spec_upsert(h.files, file_key(), fv));
    assert(spec_upsert_all(h.files, file_key(), fitems) == spec_upsert(h.files, file_key(), fv));
    lemma_upsert_all_idem(g.files, file_key(), fitems);
    lemma_upsert_all_shape(g.files, file_key(), fitems);
    lemma_upsert_all_idem(g.modules, id_key::<ModuleNodeV>(), spec_module_items(
        facts.imports,
        repo,
    ));
    lemma_upsert_all_shape(g.modules, id_key::<ModuleNodeV>(), spec_module_items(
        facts.imports,
        repo,
    ));
    lemma_upsert_all_idem(g.imports_from, id_key::<ImportEdgeV>(), spec_import_edge_items(
        facts.imports,
        fid,
        repo,
    ));
    lemma_upsert_all_shape(g.imports_from, id_key::<ImportEdgeV>(), spec_import_edge_items(
        facts.imports,
        fid,
        repo,
    ));
    lemma_upsert_all_idem(g.symbols, sym_key(), spec_sym_items(facts.symbols, fid));
    lemma_upsert_all_shape(g.symbols, sym_key(), spec_sym_items(facts.symbols, fid));
    lemma_upsert_all_idem(g.contains, id_key::<ContainsEdgeV>(), spec_contains_items(
        facts.symbols,
        fid,
    ));
    lemma_upsert_all_shape(g.contains, id_key::<ContainsEdgeV>(), spec_contains_items(
        facts.symbols,
        fid,
    ));
    let citems = spec_call_items(h.symbols, h.contains, h.files, facts.symbols, fid, repo);
    lemma_upsert_all_idem(g.calls, id_key::<CallEdgeV>(), citems);
    lemma_upsert_all_shape(g.calls, id_key::<CallEdgeV>(), citems);
    let iitems = spec_inherit_items(h.symbols, h.contains, h.files, facts.symbols, fid, repo);
    lemma_upsert_all_idem(g.inherits, id_key::<InheritEdgeV>(), iitems);
    lemma_upsert_all_shape(g.inherits, id_key::<InheritEdgeV>(), iitems);
    let h2 = spec_ingest(h, repo, path, facts);
    assert(h2.files == h.files);
    assert(h2.modules == h.modules);
    assert(h2.imports_from == h.imports_from);
    assert(h2.symbols == h.symbols);
    assert(h2.contains == h.contains);
    assert(spec_call_items(h2.symbols, h2.contains, h2.files, facts.symbols, fid, repo)
        == citems);
    assert(h2.calls == spec_upsert_all(h.calls, id_key::<CallEdgeV>(), citems));
    assert(h2.calls == h.calls);
    assert(spec_inherit_items(h2.symbols, h2.contains, h2.files, facts.symbols, fid, repo)
        == iitems);
    assert(h2.inherits == spec_upsert_all(h.inherits, id_key::<InheritEdgeV>(), iitems));
    assert(h2.inherits == h.inherits);
    assert(h2 =~= h);
}


/// Compares two string vectors by their character views.
pub fn strings_eq(a: &Vec<String>, b: &Vec<String>) -> (r: bool)
    ensures
        r == (a.deep_view() == b.deep_view()),
{
    let n = a.len();
    if b.len() != n {
        proof {
            assert(a.deep_view().len() == a@.len());
            assert(b.deep_view().len() == b@.len());
        }
        return false;
    }
    let mut i: usize = 0;
    while i < n
        invariant
            i <= n,
            n == a@.len(),
            n == b@.len(),
            forall|j: int| 0 <= j < i ==> a.deep_view()[j] == b.deep_view()[j],
        decreases n - i,
    {
        if !crate::tree::str_eq(a[i].as_str(), b[i].as_str()) {
            proof {
                assert(a.deep_view()[i as int] == a@[i as int]@);
                assert(b.deep_view()[i as int] == b@[i as int]@);
            }
            return false;
        }
        proof {
            assert(a.deep_view()[i as int] == a@[i as int]@);
            assert(b.deep_view()[i as int] == b@[i as int]@);
        }
        i = i + 1;
    }
    proof {
        assert(a.deep_view() =~= b.deep_view());
    }
    true
}

/// Compares two Module nodes.
fn module_eq(a: &ModuleNode, b: &ModuleNode) -> (r: bool)
    ensures
        r == (a.deep_view() == b.deep_view()),
{
    let r = crate::tree::str_eq(a.name.as_str(), b.name.as_str()) && crate::tree::str_eq(
        a.repo.as_str(),
        b.repo.as_str(),
    );
    proof {
        if r {
            assert(a.deep_view() =~~= b.deep_view());
        }
    }
    r
}

/// Compares two IMPORTS_FROM edges.
fn import_edge_eq(a: &ImportEdge, b: &ImportEdge) -> (r: bool)
    ensures
        r == (a.deep_view() == b.deep_view()),
{
    let r = crate::tree::str_eq(a.file_id.as_str(), b.file_id.as_str()) && crate::tree::str_eq(
        a.module_name.as_str(),
        b.module_name.as_str(),
    ) && crate::tree::str_eq(a.module_repo.as_str(), b.module_repo.as_str()) && strings_eq(
        &a.names,
        &b.names,
    );
    proof {
        if r {
            assert(a.deep_view() =~~= b.deep_view());
        }
    }
    r
}

/// Compares two CONTAINS edges.
fn contains_eq(a: &ContainsEdge, b: &ContainsEdge) -> (r: bool)
    ensures
        r == (a.deep_view() == b.deep_view()),
{
    let r = crate::tree::str_eq(a.file_id.as_str(), b.file_id.as_str()) && crate::tree::str_eq(
        a.symbol_id.as_str(),
        b.symbol_id.as_str(),
    );
    proof {
        if r {
            assert(a.deep_view() =~~= b.deep_view());
        }
    }
    r
}

/// Compares two CALLS edges.
fn call_eq(a: &CallEdge, b: &CallEdge) -> (r: bool)
    ensures
        r == (a.deep_view() == b.deep_view()),
{
    let r = crate::tree::str_eq(a.caller_id.as_str(), b.caller_id.as_str())
        && crate::tree::str_eq(a.callee_id.as_str(), b.callee_id.as_str());
    proof {
        if r {
            assert(a.deep_view() =~~= b.deep_view());
        }
    }
    r
}

/// Compares two INHERITS edges.
fn inherit_eq(a: &InheritEdge, b: &InheritEdge) -> (r: bool)
    ensures
        r == (a.deep_view() == b.deep_view()),
{
    let r = crate::tree::str_eq(a.child_id.as_str(), b.child_id.as_str()) && crate::tree::str_eq(
        a.parent_id.as_str(),
        b.parent_id.as_str(),
    );
    proof {
        if r {
            assert(a.deep_view() =~~= b.deep_view());
        }
    }
    r
}

/// Merges a File node by identity: overwrites the first node with its id,
/// or appends it.
fn upsert_file(files: &mut Vec<FileNode>, x: FileNode)
    ensures
        final(files).deep_view() == spec_upsert(old(files).deep_view(), file_key(), x.deep_view()),
{
    let ghost dv = old(files).deep_view();
    let ghost xv = x.deep_view();
    proof {
        lemma_first_key_at(dv, file_key(), xv.id);
    }
    let n = files.len();
    let mut j: usize = 0;
    while j < n
        invariant
            j <= n,
            n == files@.len(),
            files.deep_view() == dv,
            xv == x.deep_view(),
            forall|jj: int| 0 <= jj < j ==> (#[trigger] dv[jj]).id != xv.id,
        decreases n - j,
    {
        if crate::tree::str_eq(files[j].id.as_str(), x.id.as_str()) {
            proof {
                assert(dv[j as int] == files@[j as int].deep_view());
                let k = first_key_at(dv, file_key(), xv.id);
                assert(k >= 0);
                if k < j {
                    assert(dv[k].id != xv.id);
                }
                if k > j {
                    assert(dv[j as int].id != xv.id);
                }
            }
            let ghost pre = files@;
            let removed = files.remove(j);
            files.insert(j, x);
            proof {
                assert(files@ =~= pre.update(j as int, x));
                assert forall|ii: int|
                    0 <= ii < files@.len() implies files.deep_view()[ii] == dv.update(
                    j as int,
                    xv,
                )[ii] by {
                    assert(files.deep_view()[ii] == files@[ii].deep_view());
                    if ii != j {
                        assert(files@[ii] == pre[ii]);
                    }
                }
                assert(files.deep_view() =~= dv.update(j as int, xv));
            }
            return;
        }
        proof {
            assert(dv[j as int] == files@[j as int].deep_view());
        }
        j = j + 1;
    }
    proof {
        let k = first_key_at(dv, file_key(), xv.id);
        if k >= 0 {
            assert(dv[k].id != xv.id);
        }
    }
    files.push(x);
    proof {
        assert(files.deep_view() =~= dv.push(xv));
    }
}

/// Merges a symbol node by identity: overwrites the first node with its
/// id, or appends it.
fn upsert_symbol(symbols: &mut Vec<SymNode>, x: SymNode)
    ensures
        final(symbols).deep_view() == spec_upsert(
            old(symbols).deep_view(),
            sym_key(),
            x.deep_view(),
        ),
{
    let ghost dv = old(symbols).deep_view();
    let ghost xv = x.deep_view();
    proof {
        lemma_first_key_at(dv, sym_key(), xv.id);
    }
    let n = symbols.len();
    let mut j: usize = 0;
    while j < n
        invariant
            j <= n,
            n == symbols@.len(),
            symbols.deep_view() == dv,
            xv == x.deep_view(),
            forall|jj: int| 0 <= jj < j ==> (#[trigger] dv[jj]).id != xv.id,
        decreases n - j,
    {
        if crate::tree::str_eq(symbols[j].id.as_str(), x.id.as_str()) {
            proof {
                assert(dv[j as int] == symbols@[j as int].deep_view());
                let k = first_key_at(dv, sym_key(), xv.id);
                assert(k >= 0);
                if k < j {
                    assert(dv[k].id != xv.id);
                }
                if k > j {
                    assert(dv[j as int].id != xv.id);
                }
            }
            let ghost pre = symbols@;
            let removed = symbols.remove(j);
            symbols.insert(j, x);
            proof {
                assert(symbols@ =~= pre.update(j as int, x));
                assert forall|ii: int|
                    0 <= ii < symbols@.len() implies symbols.deep_view()[ii] == dv.update(
                    j as int,
                    xv,
                )[ii] by {
                    assert(symbols.deep_view()[ii] == symbols@[ii].deep_view());
                    if ii != j {
                        assert(symbols@[ii] == pre[ii]);
                    }
                }
                assert(symbols.deep_view() =~= dv.update(j as int, xv));
            }
            return;
        }
        proof {
            assert(dv[j as int] == symbols@[j as int].deep_view());
        }
        j = j + 1;
    }
    proof {
        let k = first_key_at(dv, sym_key(), xv.id);
        if k >= 0 {
            assert(dv[k].id != xv.id);
        }
    }
    symbols.push(x);
    proof {
        assert(symbols.deep_view() =~= dv.push(xv));
    }
}

/// Merges a Module node: a set insertion.
fn insert_module(v: &mut Vec<ModuleNode>, x: ModuleNode)
    ensures
        final(v).deep_view() == spec_upsert(
            old(v).deep_view(),
            id_key::<ModuleNodeV>(),
            x.deep_view(),
        ),
{
    let ghost dv = old(v).deep_view();
    let ghost xv = x.deep_view();
    proof {
        lemma_first_key_at(dv, id_key::<ModuleNodeV>(), xv);
    }
    let n = v.len();
    let mut j: usize = 0;
    while j < n
        invariant
            j <= n,
            n == v@.len(),
            v.deep_view() == dv,
            xv == x.deep_view(),
            forall|jj: int| 0 <= jj < j ==> #[trigger] dv[jj] != xv,
        decreases n - j,
    {
        if module_eq(&v[j], &x) {
            proof {
                assert(dv[j as int] == v@[j as int].deep_view());
                let k = first_key_at(dv, id_key::<ModuleNodeV>(), xv);
                assert(k >= 0);
                if k < j {
                    assert(dv[k] != xv);
                }
                if k > j {
                    assert(dv[j as int] != xv);
                }
                assert(dv.update(k, xv) =~= dv);
            }
            return;
        }
        proof {
            assert(dv[j as int] == v@[j as int].deep_view());
        }
        j = j + 1;
    }
    proof {
        let k = first_key_at(dv, id_key::<ModuleNodeV>(), xv);
        if k >= 0 {
            assert(dv[k] != xv);
        }
    }
    v.push(x);
    proof {
        assert(v.deep_view() =~= dv.push(xv));
    }
}

/// Merges an IMPORTS_FROM edge: a set insertion.
fn insert_import_edge(v: &mut Vec<ImportEdge>, x: ImportEdge)
    ensures
        final(v).deep_view() == spec_upsert(
            old(v).deep_view(),
            id_key::<ImportEdgeV>(),
            x.deep_view(),
        ),
{
    let ghost dv = old(v).deep_view();
    let ghost xv = x.deep_view();
    proof {
        lemma_first_key_at(dv, id_key::<ImportEdgeV>(), xv);
    }
    let n = v.len();
    let mut j: usize = 0;
    while j < n
        invariant
            j <= n,
            n == v@.len(),
            v.deep_view() == dv,
            xv == x.deep_view(),
            forall|jj: int| 0 <= jj < j ==> #[trigger] dv[jj] != xv,
        decreases n - j,
    {
        if import_edge_eq(&v[j], &x) {
            proof {
                assert(dv[j as int] == v@[j as int].deep_view());
                let k = first_key_at(dv, id_key::<ImportEdgeV>(), xv);
                assert(k >= 0);
                if k < j {
                    assert(dv[k] != xv);
                }
                if k > j {
                    assert(dv[j as int] != xv);
                }
                assert(dv.update(k, xv) =~= dv);
            }
            return;
        }
        proof {
            assert(dv[j as int] == v@[j as int].deep_view());
        }
        j = j + 1;
    }
    proof {
        let k = first_key_at(dv, id_key::<ImportEdgeV>(), xv);
        if k >= 0 {
            assert(dv[k] != xv);
        }
    }
    v.push(x);
    proof {
        assert(v.deep_view() =~= dv.push(xv));
    }
}

/// Merges a CONTAINS edge: a set insertion.
fn insert_contains(v: &mut Vec<ContainsEdge>, x: ContainsEdge)
    ensures
        final(v).deep_view() == spec_upsert(
            old(v).deep_view(),
            id_key::<ContainsEdgeV>(),
            x.deep_view(),
        ),
{
    let ghost dv = old(v).deep_view();
    let ghost xv = x.deep_view();
    proof {
        lemma_first_key_at(dv, id_key::<ContainsEdgeV>(), xv);
    }
    let n = v.len();
    let mut j: usize = 0;
    while j < n
        invariant
            j <= n,
            n == v@.len(),
            v.deep_view() == dv,
            xv == x.deep_view(),
            forall|jj: int| 0 <= jj < j ==> #[trigger] dv[jj] != xv,
        decreases n - j,
    {
        if contains_eq(&v[j], &x) {
            proof {
                assert(dv[j as int] == v@[j as int].deep_view());
                let k = first_key_at(dv, id_key::<ContainsEdgeV>(), xv);
                assert(k >= 0);
                if k < j {
                    assert(dv[k] != xv);
                }
                if k > j {
                    assert(dv[j as int] != xv);
                }
                assert(dv.update(k, xv) =~= dv);
            }
            return;
        }
        proof {
            assert(dv[j as int] == v@[j as int].deep_view());
        }
        j = j + 1;
    }
    proof {
        let k = first_key_at(dv, id_key::<ContainsEdgeV>(), xv);
        if k >= 0 {
            assert(dv[k] != xv);
        }
    }
    v.push(x);
    proof {
        assert(v.deep_view() =~= dv.push(xv));
    }
}

/// Merges a CALLS edge: a set insertion.
fn insert_call(v: &mut Vec<CallEdge>, x: CallEdge)
    ensures
        final(v).deep_view() == spec_upsert(
            old(v).deep_view(),
            id_key::<CallEdgeV>(),
            x.deep_view(),
        ),
{
    let ghost dv = old(v).deep_view();
    let ghost xv = x.deep_view();
    proof {
        lemma_first_key_at(dv, id_key::<CallEdgeV>(), xv);
    }
    let n = v.len();
    let mut j: usize = 0;
    while j < n
        invariant
            j <= n,
            n == v@.len(),
            v.deep_view() == dv,
            xv == x.deep_view(),
            forall|jj: int| 0 <= jj < j ==> #[trigger] dv[jj] != xv,
        decreases n - j,
    {
        if call_eq(&v[j], &x) {
            proof {
                assert(dv[j as int] == v@[j as int].deep_view());
                let k = first_key_at(dv, id_key::<CallEdgeV>(), xv);
                assert(k >= 0);
                if k < j {
                    assert(dv[k] != xv);
                }
                if k > j {
                    assert(dv[j as int] != xv);
                }
                assert(dv.update(k, xv) =~= dv);
            }
            return;
        }
        proof {
            assert(dv[j as int] == v@[j as int].deep_view());
        }
        j = j + 1;
    }
    proof {
        let k = first_key_at(dv, id_key::<CallEdgeV>(), xv);
        if k >= 0 {
            assert(dv[k] != xv);
        }
    }
    v.push(x);
    proof {
        assert(v.deep_view() =~= dv.push(xv));
    }
}

/// Merges an INHERITS edge: a set insertion.
fn insert_inherit(v: &mut Vec<InheritEdge>, x: InheritEdge)
    ensures
        final(v).deep_view() == spec_upsert(
            old(v).deep_view(),
            id_key::<InheritEdgeV>(),
            x.deep_view(),
        ),
{
    let ghost dv = old(v).deep_view();
    let ghost xv = x.deep_view();
    proof {
        lemma_first_key_at(dv, id_key::<InheritEdgeV>(), xv);
    }
    let n = v.len();
    let mut j: usize = 0;
    while j < n
        invariant
            j <= n,
            n == v@.len(),
            v.deep_view() == dv,
            xv == x.deep_view(),
            forall|jj: int| 0 <= jj < j ==> #[trigger] dv[jj] != xv,
        decreases n - j,
    {
        if inherit_eq(&v[j], &x) {
            proof {
                assert(dv[j as int] == v@[j as int].deep_view());
                let k = first_key_at(dv, id_key::<InheritEdgeV>(), xv);
                assert(k >= 0);
                if k < j {
                    assert(dv[k] != xv);
                }
                if k > j {
                    assert(dv[j as int] != xv);
                }
                assert(dv.update(k, xv) =~= dv);
            }
            return;
        }
        proof {
            assert(dv[j as int] == v@[j as int].deep_view());
        }
        j = j + 1;
    }
    proof {
        let k = first_key_at(dv, id_key::<InheritEdgeV>(), xv);
        if k >= 0 {
            assert(dv[k] != xv);
        }
    }
    v.push(x);
    proof {
        assert(v.deep_view() =~= dv.push(xv));
    }
}

/// Whether a node with this identity and label exists.
fn node_ok(symbols: &Vec<SymNode>, cid: &String, label: &str) -> (r: bool)
    ensures
        r == spec_node_ok(symbols.deep_view(), cid@, label@),
{
    let ghost dv = symbols.deep_view();
    let n = symbols.len();
    let mut i: usize = 0;
    while i < n
        invariant
            i <= n,
            n == symbols@.len(),
            dv == symbols.deep_view(),
            forall|j: int| 0 <= j < i ==> !((#[trigger] dv[j]).id == cid@ && dv[j].label == label@),
        decreases n - i,
    {
        proof {
            assert(dv[i as int] == symbols@[i as int].deep_view());
        }
        if crate::tree::str_eq(symbols[i].id.as_str(), cid.as_str()) && crate::tree::str_eq(
            symbols[i].label.as_str(),
            label,
        ) {
            return true;
        }
        i = i + 1;
    }
    proof {
        if spec_node_ok(dv, cid@, label@) {
            let w = choose|w: int|
                0 <= w < dv.len() && (#[trigger] dv[w]).id == cid@ && dv[w].label == label@;
            assert(!(dv[w].id == cid@ && dv[w].label == label@));
        }
    }
    false
}

/// Whether some file of the repository has this identity.
fn file_in_repo(files: &Vec<FileNode>, fid: &String, repo: &str) -> (r: bool)
    ensures
        r == spec_file_in_repo(files.deep_view(), fid@, repo@),
{
    let ghost dv = files.deep_view();
    let n = files.len();
    let mut i: usize = 0;
    while i < n
        invariant
            i <= n,
            n == files@.len(),
            dv == files.deep_view(),
            forall|j: int| 0 <= j < i ==> !((#[trigger] dv[j]).id == fid@ && dv[j].repo == repo@),
        decreases n - i,
    {
        proof {
            assert(dv[i as int] == files@[i as int].deep_view());
        }
        if crate::tree::str_eq(files[i].id.as_str(), fid.as_str()) && crate::tree::str_eq(
            files[i].repo.as_str(),
            repo,
        ) {
            return true;
        }
        i = i + 1;
    }
    proof {
        if spec_file_in_repo(dv, fid@, repo@) {
            let w = choose|w: int|
                0 <= w < dv.len() && (#[trigger] dv[w]).id == fid@ && dv[w].repo == repo@;
            assert(!(dv[w].id == fid@ && dv[w].repo == repo@));
        }
    }
    false
}

/// Whether the symbol with this identity is contained in a file of the
/// repository.
fn contained_in_repo(
    contains: &Vec<ContainsEdge>,
    files: &Vec<FileNode>,
    sid: &String,
    repo: &str,
) -> (r: bool)
    ensures
        r == spec_contained_in_repo(contains.deep_view(), files.deep_view(), sid@, repo@),
{
    let ghost cdv = contains.deep_view();
    let n = contains.len();
    let mut i: usize = 0;
    while i < n
        invariant
            i <= n,
            n == contains@.len(),
            cdv == contains.deep_view(),
            forall|j: int|
                0 <= j < i ==> !((#[trigger] cdv[j]).symbol_id == sid@ && spec_file_in_repo(
                    files.deep_view(),
                    cdv[j].file_id,
                    repo@,
                )),
        decreases n - i,
    {
        proof {
            assert(cdv[i as int] == contains@[i as int].deep_view());
        }
        if crate::tree::str_eq(contains[i].symbol_id.as_str(), sid.as_str()) {
            if file_in_repo(files, &contains[i].file_id, repo) {
                return true;
            }
        }
        i = i + 1;
    }
    proof {
        if spec_contained_in_repo(cdv, files.deep_view(), sid@, repo@) {
            let w = choose|w: int|
                0 <= w < cdv.len() && (#[trigger] cdv[w]).symbol_id == sid@ && spec_file_in_repo(
                    files.deep_view(),
                    cdv[w].file_id,
                    repo@,
                );
            assert(!(cdv[w].symbol_id == sid@ && spec_file_in_repo(
                files.deep_view(),
                cdv[w].file_id,
                repo@,
            )));
        }
    }
    false
}


/// Clones the value of an optional property, or yields the empty string.
fn opt_clone_or_empty(o: &Option<String>) -> (r: String)
    ensures
        r@ == opt_or_empty(o.deep_view()),
{
    match o {
        Some(v) => v.clone(),
        None => String::new(),
    }
}

/// Merges the Module nodes and IMPORTS_FROM edges of one file's imports.
fn merge_imports(
    modules: &mut Vec<ModuleNode>,
    iedges: &mut Vec<ImportEdge>,
    imports: &Vec<crate::facts::Import>,
    fid: &String,
    repo: &str,
)
    ensures
        final(modules).deep_view() == spec_upsert_all(
            old(modules).deep_view(),
            id_key::<ModuleNodeV>(),
            spec_module_items(imports.deep_view(), repo@),
        ),
        final(iedges).deep_view() == spec_upsert_all(
            old(iedges).deep_view(),
            id_key::<ImportEdgeV>(),
            spec_import_edge_items(imports.deep_view(), fid@, repo@),
        ),
{
    let ghost m0 = old(modules).deep_view();
    let ghost e0 = old(iedges).deep_view();
    let ghost idv = imports.deep_view();
    let n = imports.len();
    let mut i: usize = 0;
    proof {
        assert(idv.take(0) =~= Seq::<ImportV>::empty());
        assert(spec_module_items(idv.take(0), repo@) == Seq::<ModuleNodeV>::empty());
        assert(spec_import_edge_items(idv.take(0), fid@, repo@) == Seq::<ImportEdgeV>::empty());
    }
    while i < n
        invariant
            i <= n,
            n == imports@.len(),
            idv == imports.deep_view(),
            modules.deep_view() == spec_upsert_all(
                m0,
                id_key::<ModuleNodeV>(),
                spec_module_items(idv.take(i as int), repo@),
            ),
            iedges.deep_view() == spec_upsert_all(
                e0,
                id_key::<ImportEdgeV>(),
                spec_import_edge_items(idv.take(i as int), fid@, repo@),
            ),
        decreases n - i,
    {
        let ghost k = i as int;
        let ghost mitems = spec_module_items(idv.take(k), repo@);
        let ghost eitems = spec_import_edge_items(idv.take(k), fid@, repo@);
        proof {
            assert(idv[k] == imports@[k].deep_view());
            assert(idv.take(k + 1).subrange(0, k) =~= idv.take(k));
            assert(idv.take(k + 1)[k] == idv[k]);
        }
        match &imports[i].source {
            Some(src) => {
                proof {
                    reveal_strlit(".");
                }
                let cleaned_c = crate::text::replace_str(&crate::text::str_to_chars(src.as_str()), ".", "/");
                let cleaned = crate::text::chars_to_string(&cleaned_c);
                let m = ModuleNode { name: cleaned.clone(), repo: String::from_str(repo) };
                let ghost mv = m.deep_view();
                proof {
                    assert(mv =~~= ModuleNodeV { name: spec_replace(src@, "."@, "/"@), repo: repo@ });
                    assert(spec_module_items(idv.take(k + 1), repo@) =~= mitems.push(mv));
                    lemma_upsert_all_snoc(m0, id_key::<ModuleNodeV>(), mitems, mv);
                }
                insert_module(modules, m);
                let e = ImportEdge {
                    file_id: fid.clone(),
                    module_name: cleaned,
                    module_repo: String::from_str(repo),
                    names: crate::calls::copy_strings(&imports[i].names),
                };
                let ghost ev = e.deep_view();
                proof {
                    assert(ev =~~= ImportEdgeV {
                        file_id: fid@,
                        module_name: spec_replace(src@, "."@, "/"@),
                        module_repo: repo@,
                        names: idv[k].names,
                    });
                    assert(spec_import_edge_items(idv.take(k + 1), fid@, repo@) =~= eitems.push(ev));
                    lemma_upsert_all_snoc(e0, id_key::<ImportEdgeV>(), eitems, ev);
                }
                insert_import_edge(iedges, e);
            },
            None => {
                proof {
                    assert(spec_module_items(idv.take(k + 1), repo@) =~= mitems);
                    assert(spec_import_edge_items(idv.take(k + 1), fid@, repo@) =~= eitems);
                }
            },
        }
        i = i + 1;
    }
    proof {
        assert(idv.take(n as int) =~= idv);
    }
}

/// The node label of one symbol kind.
fn label_of(kind: &str) -> (r: &'static str)
    ensures
        r@ == spec_label_of(kind@),
{
    if crate::tree::str_eq(kind, "class") {
        "Class"
    } else if crate::tree::str_eq(kind, "function") || crate::tree::str_eq(kind, "method") {
        "Function"
    } else {
        "Symbol"
    }
}

/// Merges the symbol nodes and CONTAINS edges of one label's batch.
fn merge_symbol_batch(
    symbols: &mut Vec<SymNode>,
    contains: &mut Vec<ContainsEdge>,
    facts_syms: &Vec<crate::facts::Symbol>,
    fid_chars: &Vec<char>,
    fid: &String,
    label: &str,
)
    requires
        fid@ == fid_chars@,
    ensures
        final(symbols).deep_view() == spec_upsert_all(
            old(symbols).deep_view(),
            sym_key(),
            spec_syms_with_label(facts_syms.deep_view(), fid_chars@, label@),
        ),
        final(contains).deep_view() == spec_upsert_all(
            old(contains).deep_view(),
            id_key::<ContainsEdgeV>(),
            spec_contains_with_label(facts_syms.deep_view(), fid_chars@, label@),
        ),
{
    let ghost s0 = old(symbols).deep_view();
    let ghost c0 = old(contains).deep_view();
    let ghost fsv = facts_syms.deep_view();
    let ghost fidv = fid_chars@;
    let n = facts_syms.len();
    let mut i: usize = 0;
    proof {
        assert(fsv.take(0) =~= Seq::<SymbolV>::empty());
        assert(spec_syms_with_label(fsv.take(0), fidv, label@) == Seq::<SymNodeV>::empty());
        assert(spec_contains_with_label(fsv.take(0), fidv, label@) == Seq::<ContainsEdgeV>::empty());
    }
    while i < n
        invariant
            i <= n,
            n == facts_syms@.len(),
            fsv == facts_syms.deep_view(),
            fid@ == fid_chars@,
            fidv == fid_chars@,
            symbols.deep_view() == spec_upsert_all(
                s0,
                sym_key(),
                spec_syms_with_label(fsv.take(i as int), fidv, label@),
            ),
            contains.deep_view() == spec_upsert_all(
                c0,
                id_key::<ContainsEdgeV>(),
                spec_contains_with_label(fsv.take(i as int), fidv, label@),
            ),
        decreases n - i,
    {
        let ghost k = i as int;
        let ghost sitems = spec_syms_with_label(fsv.take(k), fidv, label@);
        let ghost citems = spec_contains_with_label(fsv.take(k), fidv, label@);
        proof {
            assert(fsv[k] == facts_syms@[k].deep_view());
            assert(fsv.take(k + 1).subrange(0, k) =~= fsv.take(k));
            assert(fsv.take(k + 1)[k] == fsv[k]);
        }
        let sym = &facts_syms[i];
        let slabel = label_of(sym.kind.as_str());
        if crate::tree::str_eq(slabel, label) {
            let id_chars = symbol_id_of(fid_chars, sym.name.as_str(), sym.range.0 as u64);
            let id_s = crate::text::chars_to_string(&id_chars);
            let node = SymNode {
                id: id_s.clone(),
                label: String::from_str(label),
                name: sym.name.clone(),
                kind: sym.kind.clone(),
                preview: sym.content_preview.clone(),
                doc: opt_clone_or_empty(&sym.docstring),
                sig: opt_clone_or_empty(&sym.signature),
                ret: opt_clone_or_empty(&sym.return_type),
                vis: opt_clone_or_empty(&sym.visibility),
                parent: opt_clone_or_empty(&sym.parent_class),
                params: params_json(&sym.params),
                decos: join_comma(&sym.decorators),
                line_start: sym.range.0 as u64,
                line_end: sym.range.1 as u64,
            };
            let ghost nv = node.deep_view();
            proof {
                assert(nv =~~= spec_sym_node(fsv[k], fidv));
                assert(spec_syms_with_label(fsv.take(k + 1), fidv, label@) =~= sitems.push(nv));
                lemma_upsert_all_snoc(s0, sym_key(), sitems, nv);
            }
            upsert_symbol(symbols, node);
            let e = ContainsEdge { file_id: fid.clone(), symbol_id: id_s };
            let ghost ev = e.deep_view();
            proof {
                assert(ev =~~= ContainsEdgeV {
                    file_id: fidv,
                    symbol_id: spec_symbol_id(fidv, fsv[k].name, fsv[k].range.0),
                });
                assert(spec_contains_with_label(fsv.take(k + 1), fidv, label@) =~= citems.push(ev));
                lemma_upsert_all_snoc(c0, id_key::<ContainsEdgeV>(), citems, ev);
            }
            insert_contains(contains, e);
        } else {
            proof {
                assert(spec_syms_with_label(fsv.take(k + 1), fidv, label@) =~= sitems);
                assert(spec_contains_with_label(fsv.take(k + 1), fidv, label@) =~= citems);
            }
        }
        i = i + 1;
    }
    proof {
        assert(fsv.take(n as int) =~= fsv);
    }
}

/// Resolves the CALLS edges of one file's facts against the store.
fn resolve_calls(
    symbols: &Vec<SymNode>,
    contains: &Vec<ContainsEdge>,
    files: &Vec<FileNode>,
    facts_syms: &Vec<crate::facts::Symbol>,
    fid_chars: &Vec<char>,
    repo: &str,
) -> (r: Vec<CallEdge>)
    ensures
        r.deep_view() == spec_call_items(
            symbols.deep_view(),
            contains.deep_view(),
            files.deep_view(),
            facts_syms.deep_view(),
            fid_chars@,
            repo@,
        ),
{
    let ghost sdv = symbols.deep_view();
    let ghost cdv = contains.deep_view();
    let ghost fdv = files.deep_view();
    let ghost fsv = facts_syms.deep_view();
    let ghost fidv = fid_chars@;
    let mut acc: Vec<CallEdge> = Vec::new();
    let n = facts_syms.len();
    let mut i: usize = 0;
    proof {
        assert(fsv.take(0) =~= Seq::<SymbolV>::empty());
        assert(acc.deep_view() =~= spec_call_items(sdv, cdv, fdv, fsv.take(0), fidv, repo@));
    }
    while i < n
        invariant
            i <= n,
            n == facts_syms@.len(),
            fsv == facts_syms.deep_view(),
            sdv == symbols.deep_view(),
            cdv == contains.deep_view(),
            fdv == files.deep_view(),
            fidv == fid_chars@,
            acc.deep_view() == spec_call_items(sdv, cdv, fdv, fsv.take(i as int), fidv, repo@),
        decreases n - i,
    {
        let ghost k = i as int;
        let ghost base_k = acc.deep_view();
        proof {
            assert(fsv[k] == facts_syms@[k].deep_view());
            assert(fsv.take(k + 1).subrange(0, k) =~= fsv.take(k));
            assert(fsv.take(k + 1)[k] == fsv[k]);
        }
        let sym = &facts_syms[i];
        let cid_chars = symbol_id_of(fid_chars, sym.name.as_str(), sym.range.0 as u64);
        let cid = crate::text::chars_to_string(&cid_chars);
        let ghost cidv = spec_symbol_id(fidv, fsv[k].name, fsv[k].range.0);
        if node_ok(symbols, &cid, "Function") {
            let m = sym.calls.len();
            let ghost calls_dv = sym.calls.deep_view();
            let mut j: usize = 0;
            proof {
                assert(calls_dv.take(0) =~= Seq::<Seq<char>>::empty());
                assert(concat_fold(calls_dv.take(0), callee_nm_fn(sdv, cdv, fdv, cidv, repo@))
                    == Seq::<CallEdgeV>::empty());
                assert(acc.deep_view() =~= base_k + concat_fold(
                    calls_dv.take(0),
                    callee_nm_fn(sdv, cdv, fdv, cidv, repo@),
                ));
            }
            while j < m
                invariant
                    j <= m,
                    m == sym.calls@.len(),
                    calls_dv == sym.calls.deep_view(),
                    sdv == symbols.deep_view(),
                    cdv == contains.deep_view(),
                    fdv == files.deep_view(),
                    fidv == fid_chars@,
                    cid@ == cidv,
                    acc.deep_view() == base_k + concat_fold(
                        calls_dv.take(j as int),
                        callee_nm_fn(sdv, cdv, fdv, cidv, repo@),
                    ),
                decreases m - j,
            {
                let ghost kj = j as int;
                let ghost base_kj = acc.deep_view();
                let ghost nmv = calls_dv[kj];
                proof {
                    assert(calls_dv[kj] == sym.calls@[kj]@);
                    assert(calls_dv.take(kj + 1).subrange(0, kj) =~= calls_dv.take(kj));
                    assert(calls_dv.take(kj + 1)[kj] == calls_dv[kj]);
                }
                let nm = &sym.calls[j];
                let t_n = symbols.len();
                let mut t: usize = 0;
                proof {
                    assert(sdv.take(0) =~= Seq::<SymNodeV>::empty());
                    assert(concat_fold(sdv.take(0), callee_t_fn(cdv, fdv, cidv, nmv, repo@))
                        == Seq::<CallEdgeV>::empty());
                    assert(acc.deep_view() =~= base_kj + concat_fold(
                        sdv.take(0),
                        callee_t_fn(cdv, fdv, cidv, nmv, repo@),
                    ));
                }
                while t < t_n
                    invariant
                        t <= t_n,
                        t_n == symbols@.len(),
                        sdv == symbols.deep_view(),
                        cdv == contains.deep_view(),
                        fdv == files.deep_view(),
                        cid@ == cidv,
                        nm@ == nmv,
                        acc.deep_view() == base_kj + concat_fold(
                            sdv.take(t as int),
                            callee_t_fn(cdv, fdv, cidv, nmv, repo@),
                        ),
                    decreases t_n - t,
                {
                    let ghost kt = t as int;
                    let ghost base_kt = acc.deep_view();
                    proof {
                        assert(sdv[kt] == symbols@[kt].deep_view());
                        assert(sdv.take(kt + 1).subrange(0, kt) =~= sdv.take(kt));
                        assert(sdv.take(kt + 1)[kt] == sdv[kt]);
                    }
                    let tn = &symbols[t];
                    if crate::tree::str_eq(tn.label.as_str(), "Function") && crate::tree::str_eq(
                        tn.name.as_str(),
                        nm.as_str(),
                    ) && contained_in_repo(contains, files, &tn.id, repo) {
                        let e = CallEdge { caller_id: cid.clone(), callee_id: tn.id.clone() };
                        let ghost ev = e.deep_view();
                        acc.push(e);
                        proof {
                            assert(ev =~~= CallEdgeV { caller_id: cidv, callee_id: sdv[kt].id });
                            assert(acc.deep_view() =~= base_kt.push(ev));
                            assert(acc.deep_view() =~= base_kj + concat_fold(
                                sdv.take(kt + 1),
                                callee_t_fn(cdv, fdv, cidv, nmv, repo@),
                            ));
                        }
                    } else {
                        proof {
                            assert(acc.deep_view() =~= base_kj + concat_fold(
                                sdv.take(kt + 1),
                                callee_t_fn(cdv, fdv, cidv, nmv, repo@),
                            ));
                        }
                    }
                    t = t + 1;
                }
                proof {
                    assert(sdv.take(t_n as int) =~= sdv);
                    assert(acc.deep_view() =~= base_k + concat_fold(
                        calls_dv.take(kj + 1),
                        callee_nm_fn(sdv, cdv, fdv, cidv, repo@),
                    ));
                }
                j = j + 1;
            }
            proof {
                assert(calls_dv.take(m as int) =~= calls_dv);
                assert(acc.deep_view() =~= spec_call_items(sdv, cdv, fdv, fsv.take(k + 1), fidv, repo@));
            }
        } else {
            proof {
                assert(acc.deep_view() =~= spec_call_items(sdv, cdv, fdv, fsv.take(k + 1), fidv, repo@));
            }
        }
        i = i + 1;
    }
    proof {
        assert(fsv.take(n as int) =~= fsv);
    }
    acc
}

/// Resolves the INHERITS edges of one file's facts against the store.
fn resolve_inherits(
    symbols: &Vec<SymNode>,
    contains: &Vec<ContainsEdge>,
    files: &Vec<FileNode>,
    facts_syms: &Vec<crate::facts::Symbol>,
    fid_chars: &Vec<char>,
    repo: &str,
) -> (r: Vec<InheritEdge>)
    ensures
        r.deep_view() == spec_inherit_items(
            symbols.deep_view(),
            contains.deep_view(),
            files.deep_view(),
            facts_syms.deep_view(),
            fid_chars@,
            repo@,
        ),
{
    let ghost sdv = symbols.deep_view();
    let ghost cdv = contains.deep_view();
    let ghost fdv = files.deep_view();
    let ghost fsv = facts_syms.deep_view();
    let ghost fidv = fid_chars@;
    let mut acc: Vec<InheritEdge> = Vec::new();
    let n = facts_syms.len();
    let mut i: usize = 0;
    proof {
        assert(fsv.take(0) =~= Seq::<SymbolV>::empty());
        assert(acc.deep_view() =~= spec_inherit_items(sdv, cdv, fdv, fsv.take(0), fidv, repo@));
    }
    while i < n
        invariant
            i <= n,
            n == facts_syms@.len(),
            fsv == facts_syms.deep_view(),
            sdv == symbols.deep_view(),
            cdv == contains.deep_view(),
            fdv == files.deep_view(),
            fidv == fid_chars@,
            acc.deep_view() == spec_inherit_items(sdv, cdv, fdv, fsv.take(i as int), fidv, repo@),
        decreases n - i,
    {
        let ghost k = i as int;
        let ghost base_k = acc.deep_view();
        proof {
            assert(fsv[k] == facts_syms@[k].deep_view());
            assert(fsv.take(k + 1).subrange(0, k) =~= fsv.take(k));
            assert(fsv.take(k + 1)[k] == fsv[k]);
        }
        let sym = &facts_syms[i];
        let cid_chars = symbol_id_of(fid_chars, sym.name.as_str(), sym.range.0 as u64);
        let cid = crate::text::chars_to_string(&cid_chars);
        let ghost cidv = spec_symbol_id(fidv, fsv[k].name, fsv[k].range.0);
        if crate::tree::str_eq(sym.kind.as_str(), "class") && sym.bases.len() > 0 && node_ok(
            symbols,
            &cid,
            "Class",
        ) {
            let m = sym.bases.len();
            let ghost bases_dv = sym.bases.deep_view();
            let mut j: usize = 0;
            proof {
                assert(bases_dv.take(0) =~= Seq::<Seq<char>>::empty());
                assert(concat_fold(bases_dv.take(0), parent_b_fn(sdv, cdv, fdv, cidv, repo@))
                    == Seq::<InheritEdgeV>::empty());
                assert(acc.deep_view() =~= base_k + concat_fold(
                    bases_dv.take(0),
                    parent_b_fn(sdv, cdv, fdv, cidv, repo@),
                ));
            }
            while j < m
                invariant
                    j <= m,
                    m == sym.bases@.len(),
                    bases_dv == sym.bases.deep_view(),
                    sdv == symbols.deep_view(),
                    cdv == contains.deep_view(),
                    fdv == files.deep_view(),
                    fidv == fid_chars@,
                    cid@ == cidv,
                    acc.deep_view() == base_k + concat_fold(
                        bases_dv.take(j as int),
                        parent_b_fn(sdv, cdv, fdv, cidv, repo@),
                    ),
                decreases m - j,
            {
                let ghost kj = j as int;
                let ghost base_kj = acc.deep_view();
                let ghost bv = bases_dv[kj];
                proof {
                    assert(bases_dv[kj] == sym.bases@[kj]@);
                    assert(bases_dv.take(kj + 1).subrange(0, kj) =~= bases_dv.take(kj));
                    assert(bases_dv.take(kj + 1)[kj] == bases_dv[kj]);
                }
                let b = &sym.bases[j];
                let t_n = symbols.len();
                let mut t: usize = 0;
                proof {
                    assert(sdv.take(0) =~= Seq::<SymNodeV>::empty());
                    assert(concat_fold(sdv.take(0), parent_t_fn(cdv, fdv, cidv, bv, repo@))
                        == Seq::<InheritEdgeV>::empty());
                    assert(acc.deep_view() =~= base_kj + concat_fold(
                        sdv.take(0),
                        parent_t_fn(cdv, fdv, cidv, bv, repo@),
                    ));
                }
                while t < t_n
                    invariant
                        t <= t_n,
                        t_n == symbols@.len(),
                        sdv == symbols.deep_view(),
                        cdv == contains.deep_view(),
                        fdv == files.deep_view(),
                        cid@ == cidv,
                        b@ == bv,
                        acc.deep_view() == base_kj + concat_fold(
                            sdv.take(t as int),
                            parent_t_fn(cdv, fdv, cidv, bv, repo@),
                        ),
                    decreases t_n - t,
                {
                    let ghost kt = t as int;
                    let ghost base_kt = acc.deep_view();
                    proof {
                        assert(sdv[kt] == symbols@[kt].deep_view());
                        assert(sdv.take(kt + 1).subrange(0, kt) =~= sdv.take(kt));
                        assert(sdv.take(kt + 1)[kt] == sdv[kt]);
                    }
                    let tn = &symbols[t];
                    if crate::tree::str_eq(tn.label.as_str(), "Class") && crate::tree::str_eq(
                        tn.name.as_str(),
                        b.as_str(),
                    ) && contained_in_repo(contains, files, &tn.id, repo) {
                        let e = InheritEdge { child_id: cid.clone(), parent_id: tn.id.clone() };
                        let ghost ev = e.deep_view();
                        acc.push(e);
                        proof {
                            assert(ev =~~= InheritEdgeV { child_id: cidv, parent_id: sdv[kt].id });
                            assert(acc.deep_view() =~= base_kt.push(ev));
                            assert(acc.deep_view() =~= base_kj + concat_fold(
                                sdv.take(kt + 1),
                                parent_t_fn(cdv, fdv, cidv, bv, repo@),
                            ));
                        }
                    } else {
                        proof {
                            assert(acc.deep_view() =~= base_kj + concat_fold(
                                sdv.take(kt + 1),
                                parent_t_fn(cdv, fdv, cidv, bv, repo@),
                            ));
                        }
                    }
                    t = t + 1;
                }
                proof {
                    assert(sdv.take(t_n as int) =~= sdv);
                    assert(acc.deep_view() =~= base_k + concat_fold(
                        bases_dv.take(kj + 1),
                        parent_b_fn(sdv, cdv, fdv, cidv, repo@),
                    ));
                }
                j = j + 1;
            }
            proof {
                assert(bases_dv.take(m as int) =~= bases_dv);
                assert(acc.deep_view() =~= spec_inherit_items(sdv, cdv, fdv, fsv.take(k + 1), fidv, repo@));
            }
        } else {
            proof {
                assert(acc.deep_view() =~= spec_inherit_items(sdv, cdv, fdv, fsv.take(k + 1), fidv, repo@));
            }
        }
        i = i + 1;
    }
    proof {
        assert(fsv.take(n as int) =~= fsv);
    }
    acc
}

/// Merges a batch of resolved CALLS edges.
fn merge_call_items(calls: &mut Vec<CallEdge>, items: &Vec<CallEdge>)
    ensures
        final(calls).deep_view() == spec_upsert_all(
            old(calls).deep_view(),
            id_key::<CallEdgeV>(),
            items.deep_view(),
        ),
{
    let ghost c0 = old(calls).deep_view();
    let ghost idv = items.deep_view();
    let n = items.len();
    let mut i: usize = 0;
    proof {
        assert(idv.take(0) =~= Seq::<CallEdgeV>::empty());
    }
    while i < n
        invariant
            i <= n,
            n == items@.len(),
            idv == items.deep_view(),
            calls.deep_view() == spec_upsert_all(c0, id_key::<CallEdgeV>(), idv.take(i as int)),
        decreases n - i,
    {
        let ghost k = i as int;
        let e = CallEdge {
            caller_id: items[i].caller_id.clone(),
            callee_id: items[i].callee_id.clone(),
        };
        proof {
            assert(idv[k] == items@[k].deep_view());
            assert(e.deep_view() =~~= idv[k]);
            assert(idv.take(k + 1) =~= idv.take(k).push(idv[k]));
            lemma_upsert_all_snoc(c0, id_key::<CallEdgeV>(), idv.take(k), idv[k]);
        }
        insert_call(calls, e);
        i = i + 1;
    }
    proof {
        assert(idv.take(n as int) =~= idv);
    }
}

/// Merges a batch of resolved INHERITS edges.
fn merge_inherit_items(inherits: &mut Vec<InheritEdge>, items: &Vec<InheritEdge>)
    ensures
        final(inherits).deep_view() == spec_upsert_all(
            old(inherits).deep_view(),
            id_key::<InheritEdgeV>(),
            items.deep_view(),
        ),
{
    let ghost c0 = old(inherits).deep_view();
    let ghost idv = items.deep_view();
    let n = items.len();
    let mut i: usize = 0;
    proof {
        assert(idv.take(0) =~= Seq::<InheritEdgeV>::empty());
    }
    while i < n
        invariant
            i <= n,
            n == items@.len(),
            idv == items.deep_view(),
            inherits.deep_view() == spec_upsert_all(
                c0,
                id_key::<InheritEdgeV>(),
                idv.take(i as int),
            ),
        decreases n - i,
    {
        let ghost k = i as int;
        let e = InheritEdge {
            child_id: items[i].child_id.clone(),
            parent_id: items[i].parent_id.clone(),
        };
        proof {
            assert(idv[k] == items@[k].deep_view());
            assert(e.deep_view() =~~= idv[k]);
            assert(idv.take(k + 1) =~= idv.take(k).push(idv[k]));
            lemma_upsert_all_snoc(c0, id_key::<InheritEdgeV>(), idv.take(k), idv[k]);
        }
        insert_inherit(inherits, e);
        i = i + 1;
    }
    proof {
        assert(idv.take(n as int) =~= idv);
    }
}

/// The view of an empty store.
pub open spec fn spec_empty_store() -> GraphStoreV {
    GraphStoreV {
        schema_ready: false,
        files: Seq::empty(),
        symbols: Seq::empty(),
        modules: Seq::empty(),
        contains: Seq::empty(),
        imports_from: Seq::empty(),
        calls: Seq::empty(),
        inherits: Seq::empty(),
    }
}

impl GraphStore {
    /// An empty, well-formed store.
    pub fn new() -> (s: GraphStore)
        ensures
            s.deep_view() == spec_empty_store(),
            wf_store(s.deep_view()),
    {
        let s = GraphStore {
            schema_ready: false,
            files: Vec::new(),
            symbols: Vec::new(),
            modules: Vec::new(),
            contains: Vec::new(),
            imports_from: Vec::new(),
            calls: Vec::new(),
            inherits: Vec::new(),
        };
        proof {
            assert(s.deep_view() =~~= spec_empty_store());
        }
        s
    }

    /// Marks the schema (uniqueness constraints and the name index) as
    /// present; safe to repeat.
    pub fn ensure_schema(&mut self)
        ensures
            final(self).deep_view() == (GraphStoreV {
                schema_ready: true,
                ..old(self).deep_view()
            }),
    {
        self.schema_ready = true;
        proof {
            assert(self.deep_view() =~~= GraphStoreV {
                schema_ready: true,
                ..old(self).deep_view()
            });
        }
    }

    /// Applies one file's facts to the graph with idempotent, batched
    /// merges: the File node, the Module nodes and IMPORTS_FROM edges, the
    /// symbol nodes and CONTAINS edges (Class, Function, then Symbol
    /// batches), and finally the name-resolved CALLS and INHERITS edges.
    pub fn ingest_symbols(&mut self, repo_name: &str, file_path: &str, result: &ParsingResult)
        ensures
            final(self).deep_view() == spec_ingest(
                old(self).deep_view(),
                repo_name@,
                file_path@,
                result.deep_view(),
            ),
    {
        let ghost g0 = old(self).deep_view();
        let ghost factsv = result.deep_view();
        let fid_chars = file_id_of(repo_name, file_path);
        let fid = crate::text::chars_to_string(&fid_chars);
        let ghost fidv = spec_file_id(repo_name@, file_path@);

        // File node: merge by identity, then overwrite every property.
        let mut raws: Vec<String> = Vec::new();
        let nimp = result.imports.len();
        let mut i: usize = 0;
        proof {
            assert(raws.deep_view() =~= factsv.imports.take(0).map_values(|im: ImportV| im.raw));
        }
        while i < nimp
            invariant
                i <= nimp,
                nimp == result.imports@.len(),
                factsv == result.deep_view(),
                raws.deep_view() == factsv.imports.take(i as int).map_values(
                    |im: ImportV| im.raw,
                ),
            decreases nimp - i,
        {
            let ghost prev = raws.deep_view();
            raws.push(result.imports[i].raw.clone());
            proof {
                let k = i as int;
                assert(factsv.imports[k] == result.imports@[k].deep_view());
                assert(raws.deep_view() =~= prev.push(factsv.imports[k].raw));
                assert(factsv.imports.take(k + 1).map_values(|im: ImportV| im.raw) =~= factsv
                    .imports.take(k).map_values(|im: ImportV| im.raw).push(
                    factsv.imports[k].raw,
                ));
            }
            i = i + 1;
        }
        proof {
            assert(factsv.imports.take(nimp as int) =~= factsv.imports);
        }
        let f = FileNode {
            id: fid.clone(),
            path: String::from_str(file_path),
            repo: String::from_str(repo_name),
            language: crate::lang::lang_name(&result.language),
            imports: raws,
            exports: crate::calls::copy_strings(&result.exports),
        };
        proof {
            assert(f.deep_view() =~~= spec_file_node(repo_name@, file_path@, factsv));
        }
        upsert_file(&mut self.files, f);

        // Module nodes and IMPORTS_FROM edges, one batched pass.
        merge_imports(&mut self.modules, &mut self.imports_from, &result.imports, &fid, repo_name);

        // Symbol nodes and CONTAINS edges, batched by label.
        merge_symbol_batch(&mut self.symbols, &mut self.contains, &result.symbols, &fid_chars, &fid, "Class");
        merge_symbol_batch(&mut self.symbols, &mut self.contains, &result.symbols, &fid_chars, &fid, "Function");
        merge_symbol_batch(&mut self.symbols, &mut self.contains, &result.symbols, &fid_chars, &fid, "Symbol");

        // Name-resolved CALLS and INHERITS edges.
        let call_items = resolve_calls(&self.symbols, &self.contains, &self.files, &result.symbols, &fid_chars, repo_name);
        merge_call_items(&mut self.calls, &call_items);
        let inh_items = resolve_inherits(&self.symbols, &self.contains, &self.files, &result.symbols, &fid_chars, repo_name);
        merge_inherit_items(&mut self.inherits, &inh_items);

        proof {
            let h = spec_ingest(g0, repo_name@, file_path@, factsv);
            assert(spec_sym_items(factsv.symbols, fidv) == spec_syms_with_label(
                factsv.symbols,
                fidv,
                "Class"@,
            ) + spec_syms_with_label(factsv.symbols, fidv, "Function"@) + spec_syms_with_label(
                factsv.symbols,
                fidv,
                "Symbol"@,
            ));
            crate::keyed::lemma_upsert_all_app(g0.symbols, sym_key(), spec_syms_with_label(
                factsv.symbols,
                fidv,
                "Class"@,
            ) + spec_syms_with_label(factsv.symbols, fidv, "Function"@), spec_syms_with_label(
                factsv.symbols,
                fidv,
                "Symbol"@,
            ));
            crate::keyed::lemma_upsert_all_app(g0.symbols, sym_key(), spec_syms_with_label(
                factsv.symbols,
                fidv,
                "Class"@,
            ), spec_syms_with_label(factsv.symbols, fidv, "Function"@));
            crate::keyed::lemma_upsert_all_app(g0.contains, id_key::<ContainsEdgeV>(),
                spec_contains_with_label(factsv.symbols, fidv, "Class"@) + spec_contains_with_label(
                factsv.symbols,
                fidv,
                "Function"@,
            ), spec_contains_with_label(factsv.symbols, fidv, "Symbol"@));
            crate::keyed::lemma_upsert_all_app(g0.contains, id_key::<ContainsEdgeV>(),
                spec_contains_with_label(factsv.symbols, fidv, "Class"@), spec_contains_with_label(
                factsv.symbols,
                fidv,
                "Function"@,
            ));
            assert(self.deep_view().symbols == h.symbols);
            assert(self.deep_view().contains == h.contains);
            assert(self.deep_view().files == h.files);
            assert(self.deep_view().modules == h.modules);
            assert(self.deep_view().imports_from == h.imports_from);
            assert(self.deep_view().calls == h.calls);
            assert(self.deep_view().inherits == h.inherits);
            assert(self.deep_view() =~= h);
        }
    }
}


/// Symbol identity is collision-free inside the graph: a well-formed
/// store holds at most one symbol node per identity, and ingestion keeps
/// it that way, so a duplicate extracted identity merges instead of
/// duplicating.
pub proof fn lemma_symbol_identity_unique(
    g: GraphStoreV,
    repo: Seq<char>,
    path: Seq<char>,
    facts: ParsingResultV,
)
    requires
        wf_store(g),
    ensures
        unique_keys(spec_ingest(g, repo, path, facts).symbols, sym_key()),
        forall|a: int, b: int|
            0 <= a < b < spec_ingest(g, repo, path, facts).symbols.len() ==> (
            #[trigger] spec_ingest(g, repo, path, facts).symbols[a]).id != (
            #[trigger] spec_ingest(g, repo, path, facts).symbols[b]).id,
{
    lemma_ingest_idempotent(g, repo, path, facts);
    let h = spec_ingest(g, repo, path, facts);
    assert forall|a: int, b: int|
        0 <= a < b < h.symbols.len() implies (#[trigger] h.symbols[a]).id != (
    #[trigger] h.symbols[b]).id by {
        assert(sym_key()(h.symbols[a]) == h.symbols[a].id);
        assert(sym_key()(h.symbols[b]) == h.symbols[b].id);
    }
}

/// The condition under which ingesting this file creates a CALLS edge
/// `e`: some extracted symbol is the caller (present as a Function node),
/// and the callee is a Function node with a called name, contained in a
/// file of the same repository.
pub open spec fn spec_call_edge_cond(
    h: GraphStoreV,
    facts: ParsingResultV,
    fid: Seq<char>,
    repo: Seq<char>,
    e: CallEdgeV,
) -> bool {
    exists|i: int, t: int|
        {
            &&& 0 <= i < facts.symbols.len()
            &&& 0 <= t < h.symbols.len()
            &&& e.caller_id == spec_symbol_id(
                fid,
                (#[trigger] facts.symbols[i]).name,
                facts.symbols[i].range.0,
            )
            &&& spec_node_ok(h.symbols, e.caller_id, "Function"@)
            &&& facts.symbols[i].calls.contains((#[trigger] h.symbols[t]).name)
            &&& h.symbols[t].label == "Function"@
            &&& spec_contained_in_repo(h.contains, h.files, h.symbols[t].id, repo)
            &&& e.callee_id == h.symbols[t].id
        }
}

/// A CALLS edge exists after ingestion exactly when it existed before or
/// the ingested file's facts create it: the callee is a Function node with
/// a matching name contained in a file of the same repository, and the
/// caller is the extracted symbol's Function node.  No match creates no
/// edge, and never an error.
pub proof fn lemma_call_edge_exists(
    g: GraphStoreV,
    repo: Seq<char>,
    path: Seq<char>,
    facts: ParsingResultV,
)
    ensures
        ({
            let h = spec_ingest(g, repo, path, facts);
            let fid = spec_file_id(repo, path);
            forall|e: CallEdgeV|
                #[trigger] h.calls.contains(e) <==> (g.calls.contains(e) || spec_call_edge_cond(
                    h,
                    facts,
                    fid,
                    repo,
                    e,
                ))
        }),
{
    let h = spec_ingest(g, repo, path, facts);
    let fid = spec_file_id(repo, path);
    let items = spec_call_items(h.symbols, h.contains, h.files, facts.symbols, fid, repo);
    assert(h.calls == spec_upsert_all(g.calls, id_key::<CallEdgeV>(), items));
    crate::keyed::lemma_upsert_all_members(g.calls, items);
    let symf = call_sym_fn(h.symbols, h.contains, h.files, fid, repo);
    crate::keyed::lemma_concat_fold_members(facts.symbols, symf);
    assert forall|e: CallEdgeV|
        #[trigger] items.contains(e) <==> spec_call_edge_cond(h, facts, fid, repo, e) by {
        if items.contains(e) {
            let i = choose|i: int|
                0 <= i < facts.symbols.len() && symf(#[trigger] facts.symbols[i]).contains(e);
            let sym = facts.symbols[i];
            let cid = spec_symbol_id(fid, sym.name, sym.range.0);
            assert(spec_node_ok(h.symbols, cid, "Function"@));
            let nmf = callee_nm_fn(h.symbols, h.contains, h.files, cid, repo);
            crate::keyed::lemma_concat_fold_members(sym.calls, nmf);
            let j = choose|j: int|
                0 <= j < sym.calls.len() && nmf(#[trigger] sym.calls[j]).contains(e);
            let nm = sym.calls[j];
            let tf = callee_t_fn(h.contains, h.files, cid, nm, repo);
            crate::keyed::lemma_concat_fold_members(h.symbols, tf);
            let t = choose|t: int|
                0 <= t < h.symbols.len() && tf(#[trigger] h.symbols[t]).contains(e);
            assert(tf(h.symbols[t]).contains(e));
            assert(h.symbols[t].label == "Function"@ && h.symbols[t].name == nm
                && spec_contained_in_repo(h.contains, h.files, h.symbols[t].id, repo));
            assert(e == CallEdgeV { caller_id: cid, callee_id: h.symbols[t].id }) by {
                let w = choose|w: int|
                    0 <= w < tf(h.symbols[t]).len() && (#[trigger] tf(h.symbols[t])[w]) == e;
                assert(tf(h.symbols[t]) == seq![
                    CallEdgeV { caller_id: cid, callee_id: h.symbols[t].id },
                ]);
            }
            assert(sym.calls.contains(h.symbols[t].name)) by {
                assert(sym.calls[j] == nm);
            }
            assert(spec_call_edge_cond(h, facts, fid, repo, e));
        }
        if spec_call_edge_cond(h, facts, fid, repo, e) {
            let (i, t) = choose|i: int, t: int|
                {
                    &&& 0 <= i < facts.symbols.len()
                    &&& 0 <= t < h.symbols.len()
                    &&& e.caller_id == spec_symbol_id(
                        fid,
                        (#[trigger] facts.symbols[i]).name,
                        facts.symbols[i].range.0,
                    )
                    &&& spec_node_ok(h.symbols, e.caller_id, "Function"@)
                    &&& facts.symbols[i].calls.contains((#[trigger] h.symbols[t]).name)
                    &&& h.symbols[t].label == "Function"@
                    &&& spec_contained_in_repo(h.contains, h.files, h.symbols[t].id, repo)
                    &&& e.callee_id == h.symbols[t].id
                };
            let sym = facts.symbols[i];
            let cid = spec_symbol_id(fid, sym.name, sym.range.0);
            let nm = h.symbols[t].name;
            let j = choose|j: int| 0 <= j < sym.calls.len() && sym.calls[j] == nm;
            let tf = callee_t_fn(h.contains, h.files, cid, nm, repo);
            crate::keyed::lemma_concat_fold_members(h.symbols, tf);
            assert(tf(h.symbols[t])[0] == e);
            assert(tf(h.symbols[t]).contains(e));
            assert(spec_callee_edges(h.symbols, h.contains, h.files, cid, nm, repo).contains(e));
            let nmf = callee_nm_fn(h.symbols, h.contains, h.files, cid, repo);
            crate::keyed::lemma_concat_fold_members(sym.calls, nmf);
            assert(nmf(sym.calls[j]).contains(e));
            assert(symf(sym).contains(e));
            assert(items.contains(e));
        }
    }
}

} // verus!
