//! Tests of the ingestion engine: idempotent merges, call-edge resolution,
//! the read operations, and the encodings the graph stores.

use codegraph::extract::parse_content;
use codegraph::facts::{Param, ParsingResult, Symbol};
use codegraph::lang::Language;
use codegraph::store::GraphStore;
use codegraph::encode::{params_json, join_comma};

fn plain_symbol(name: &str, kind: &str, line: usize) -> Symbol {
    Symbol {
        name: name.to_string(),
        kind: kind.to_string(),
        range: (line, line + 1),
        content_preview: String::new(),
        docstring: None,
        signature: None,
        params: Vec::new(),
        return_type: None,
        visibility: None,
        parent_class: None,
        decorators: Vec::new(),
        calls: Vec::new(),
        bases: Vec::new(),
    }
}

fn facts_with(symbols: Vec<Symbol>) -> ParsingResult {
    ParsingResult { language: Language::Python, symbols, imports: Vec::new(), exports: Vec::new() }
}

#[test]
fn ingest_creates_file_symbol_and_contains() {
    let mut store = GraphStore::new();
    store.ensure_schema();
    let facts = facts_with(vec![plain_symbol("foo", "function", 1)]);
    store.ingest_symbols("repo", "a.py", &facts);
    assert_eq!(store.files.len(), 1);
    assert_eq!(store.files[0].id, "repo::a.py");
    assert_eq!(store.files[0].language, "Python");
    assert_eq!(store.symbols.len(), 1);
    assert_eq!(store.symbols[0].id, "repo::a.py::foo:1");
    assert_eq!(store.symbols[0].label, "Function");
    assert_eq!(store.contains.len(), 1);
}

#[test]
fn ingest_twice_is_idempotent() {
    let content = "def foo():\n    \"\"\"doc\"\"\"\n    return bar()\n\ndef bar():\n    pass\n";
    let facts = parse_content("t.py", content).expect("parse");
    let mut store = GraphStore::new();
    store.ingest_symbols("r", "t.py", &facts);
    let files1 = store.files.len();
    let symbols1 = store.symbols.len();
    let contains1 = store.contains.len();
    let calls1 = store.calls.len();
    let inherits1 = store.inherits.len();
    store.ingest_symbols("r", "t.py", &facts);
    assert_eq!(store.files.len(), files1);
    assert_eq!(store.symbols.len(), symbols1);
    assert_eq!(store.contains.len(), contains1);
    assert_eq!(store.calls.len(), calls1);
    assert_eq!(store.inherits.len(), inherits1);
}

#[test]
fn call_edge_created_for_matching_function() {
    let content = "def foo():\n    \"\"\"doc\"\"\"\n    return bar()\n\ndef bar():\n    pass\n";
    let facts = parse_content("t.py", content).expect("parse");
    let mut store = GraphStore::new();
    store.ingest_symbols("r", "t.py", &facts);
    assert_eq!(store.calls.len(), 1);
    assert_eq!(store.calls[0].caller_id, "r::t.py::foo:1");
    assert_eq!(store.calls[0].callee_id, "r::t.py::bar:5");
    store.ingest_symbols("r", "t.py", &facts);
    assert_eq!(store.calls.len(), 1);
}

#[test]
fn call_edge_absent_without_matching_callee() {
    let mut store = GraphStore::new();
    let mut caller = plain_symbol("foo", "function", 1);
    caller.calls = vec!["missing".to_string()];
    store.ingest_symbols("r", "a.py", &facts_with(vec![caller]));
    assert_eq!(store.calls.len(), 0);
}

#[test]
fn call_edge_ignores_other_repositories() {
    let mut store = GraphStore::new();
    store.ingest_symbols("other", "lib.py", &facts_with(vec![plain_symbol("bar", "function", 1)]));
    let mut caller = plain_symbol("foo", "function", 1);
    caller.calls = vec!["bar".to_string()];
    store.ingest_symbols("mine", "a.py", &facts_with(vec![caller]));
    assert_eq!(store.calls.len(), 0);
}

#[test]
fn call_edge_crosses_files_in_one_repository() {
    let mut store = GraphStore::new();
    store.ingest_symbols("r", "lib.py", &facts_with(vec![plain_symbol("bar", "function", 1)]));
    let mut caller = plain_symbol("foo", "function", 1);
    caller.calls = vec!["bar".to_string()];
    store.ingest_symbols("r", "a.py", &facts_with(vec![caller]));
    assert_eq!(store.calls.len(), 1);
    assert_eq!(store.calls[0].caller_id, "r::a.py::foo:1");
    assert_eq!(store.calls[0].callee_id, "r::lib.py::bar:1");
}

#[test]
fn inherits_edge_links_classes_by_name() {
    let mut store = GraphStore::new();
    store.ingest_symbols("r", "base.py", &facts_with(vec![plain_symbol("Base", "class", 1)]));
    let mut child = plain_symbol("Child", "class", 1);
    child.bases = vec!["Base".to_string()];
    store.ingest_symbols("r", "child.py", &facts_with(vec![child]));
    assert_eq!(store.inherits.len(), 1);
    assert_eq!(store.inherits[0].child_id, "r::child.py::Child:1");
    assert_eq!(store.inherits[0].parent_id, "r::base.py::Base:1");
}

#[test]
fn reingestion_overwrites_file_properties() {
    let mut store = GraphStore::new();
    let mut f1 = facts_with(vec![]);
    f1.exports = vec!["a".to_string()];
    store.ingest_symbols("r", "x.py", &f1);
    let mut f2 = facts_with(vec![]);
    f2.exports = vec!["b".to_string()];
    store.ingest_symbols("r", "x.py", &f2);
    assert_eq!(store.files.len(), 1);
    assert_eq!(store.files[0].exports, vec!["b".to_string()]);
}

#[test]
fn file_listing_round_trips_path_scoped_by_repo() {
    let mut store = GraphStore::new();
    store.ingest_symbols("mine", "src/a.py", &facts_with(vec![]));
    store.ingest_symbols("other", "src/a.py", &facts_with(vec![]));
    let mine = store.get_all_files("mine");
    assert_eq!(mine.len(), 1);
    assert_eq!(mine[0].path, "src/a.py");
    assert_eq!(mine[0].language, "Python");
    let nobody = store.get_all_files("nobody");
    assert!(nobody.is_empty());
}

#[test]
fn symbol_listing_joins_file_path() {
    let mut store = GraphStore::new();
    let mut sym = plain_symbol("foo", "function", 3);
    sym.docstring = Some("d".to_string());
    store.ingest_symbols("r", "a.py", &facts_with(vec![sym]));
    let rows = store.get_all_symbols("r");
    assert_eq!(rows.len(), 1);
    assert_eq!(rows[0].name, "foo");
    assert_eq!(rows[0].kind, "function");
    assert_eq!(rows[0].docstring, "d");
    assert_eq!(rows[0].file, "a.py");
    assert_eq!(rows[0].line_start, 3);
    assert!(store.get_all_symbols("other").is_empty());
}

#[test]
fn counts_group_by_kind_and_language() {
    let mut store = GraphStore::new();
    store.ingest_symbols(
        "r",
        "a.py",
        &facts_with(vec![
            plain_symbol("f", "function", 1),
            plain_symbol("g", "function", 2),
            plain_symbol("K", "class", 3),
        ]),
    );
    let kinds = store.count_by_kind("r");
    let f = kinds.iter().find(|c| c.key == "function").expect("function row");
    assert_eq!(f.count, 2);
    let c = kinds.iter().find(|c| c.key == "class").expect("class row");
    assert_eq!(c.count, 1);
    let langs = store.get_file_languages("r");
    assert_eq!(langs.len(), 1);
    assert_eq!(langs[0].key, "Python");
    assert_eq!(langs[0].count, 1);
}

#[test]
fn structure_lists_files_with_symbol_summaries() {
    let mut store = GraphStore::new();
    store.ingest_symbols("r", "a.py", &facts_with(vec![plain_symbol("foo", "function", 1)]));
    store.ingest_symbols("r", "b.py", &facts_with(vec![]));
    let rows = store.get_repo_structure("r");
    assert_eq!(rows.len(), 2);
    assert_eq!(rows[0].path, "a.py");
    assert_eq!(rows[0].symbols.len(), 1);
    assert_eq!(rows[0].symbols[0].name, "foo");
    assert_eq!(rows[1].path, "b.py");
    assert!(rows[1].symbols.is_empty());
}

#[test]
fn module_nodes_and_import_edges_merge() {
    let content = "import os\nfrom a.b import c\n";
    let facts = parse_content("i.py", content).expect("parse");
    let mut store = GraphStore::new();
    store.ingest_symbols("r", "i.py", &facts);
    assert_eq!(store.modules.len(), 1);
    assert_eq!(store.modules[0].name, "a/b");
    assert_eq!(store.modules[0].repo, "r");
    assert_eq!(store.imports_from.len(), 1);
    assert_eq!(store.imports_from[0].names, vec!["c".to_string()]);
    store.ingest_symbols("r", "i.py", &facts);
    assert_eq!(store.modules.len(), 1);
    assert_eq!(store.imports_from.len(), 1);
}

#[test]
fn params_encode_as_compact_json() {
    let ps = vec![
        Param {
            name: "x".to_string(),
            type_annotation: Some("int".to_string()),
            default: None,
        },
        Param { name: "s".to_string(), type_annotation: None, default: Some("\"a\"".to_string()) },
    ];
    assert_eq!(
        params_json(&ps),
        "[{\"name\":\"x\",\"type_annotation\":\"int\",\"default\":null},{\"name\":\"s\",\"type_annotation\":null,\"default\":\"\\\"a\\\"\"}]"
    );
}

#[test]
fn empty_params_encode_as_empty_array() {
    assert_eq!(params_json(&Vec::new()), "[]");
}

#[test]
fn decorators_join_with_comma_space() {
    let ds = vec!["@a".to_string(), "@b".to_string()];
    assert_eq!(join_comma(&ds), "@a, @b");
    assert_eq!(join_comma(&Vec::new()), "");
}

#[test]
fn stored_symbol_properties_match_facts() {
    let mut sym = plain_symbol("m", "method", 7);
    sym.parent_class = Some("K".to_string());
    sym.decorators = vec!["@x".to_string(), "@y".to_string()];
    sym.params = vec![Param { name: "a".to_string(), type_annotation: None, default: None }];
    let mut store = GraphStore::new();
    store.ingest_symbols("r", "k.py", &facts_with(vec![sym]));
    assert_eq!(store.symbols.len(), 1);
    let n = &store.symbols[0];
    assert_eq!(n.id, "r::k.py::m:7");
    assert_eq!(n.label, "Function");
    assert_eq!(n.kind, "method");
    assert_eq!(n.parent, "K");
    assert_eq!(n.decos, "@x, @y");
    assert_eq!(n.params, "[{\"name\":\"a\",\"type_annotation\":null,\"default\":null}]");
    assert_eq!(n.line_start, 7);
    assert_eq!(n.line_end, 8);
}
