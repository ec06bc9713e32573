//! Cross-language extraction behavior, including the documented
//! imprecisions the design keeps on purpose.

use codegraph::classify::classify;
use codegraph::extract::parse_content;
use codegraph::facts::{ParsingResult, Symbol};
use codegraph::lang::Language;
use codegraph::store::GraphStore;

#[test]
fn ruby_require_is_an_import() {
    let content = "require 'json'\n\ndef go\nend\n";
    let r = parse_content("a.rb", content).expect("parse");
    assert_eq!(r.language, Language::Ruby);
    assert_eq!(r.imports.len(), 1);
    assert!(r.imports[0].source.is_none());
    assert_eq!(r.imports[0].names.len(), 1);
    let go = r.symbols.iter().find(|s| s.name == "go").expect("method");
    assert_eq!(go.kind, "function");
}

#[test]
fn java_class_with_method_and_doc() {
    let content = "// Runs things.\npublic class Runner {\n    public void run() {}\n}\n";
    let r = parse_content("Runner.java", content).expect("parse");
    let class = r.symbols.iter().find(|s| s.name == "Runner").expect("class");
    assert_eq!(class.kind, "class");
    // Java's grammar names comment nodes line_comment, not comment, so the
    // preceding-comment docstring convention finds none here.
    assert!(class.docstring.is_none());
    let m = r.symbols.iter().find(|s| s.name == "run").expect("method");
    assert_eq!(m.kind, "method");
    assert_eq!(m.parent_class.as_deref(), Some("Runner"));
}

#[test]
fn java_extends_is_a_base() {
    let content = "class A extends B {\n}\n";
    let r = parse_content("A.java", content).expect("parse");
    let a = r.symbols.iter().find(|s| s.name == "A").expect("class");
    assert_eq!(a.bases, vec!["B".to_string()]);
}

#[test]
fn cpp_function_and_include() {
    let content = "#include <stdio.h>\n\nint main() {\n    return 0;\n}\n";
    let r = parse_content("m.cpp", content).expect("parse");
    assert_eq!(r.imports.len(), 1);
    assert_eq!(r.imports[0].raw, "#include <stdio.h>\n");
    assert!(r.symbols.iter().any(|s| s.kind == "function"));
}

#[test]
fn php_function_is_extracted() {
    let content = "<?php\nfunction greet() {\n    return 1;\n}\n";
    let r = parse_content("i.php", content).expect("parse");
    let g = r.symbols.iter().find(|s| s.name == "greet").expect("function");
    assert_eq!(g.kind, "function");
}

#[test]
fn typescript_export_sets_visibility() {
    let content = "export function go(): number {\n  return 1;\n}\n";
    let r = parse_content("e.ts", content).expect("parse");
    let go = r.symbols.iter().find(|s| s.name == "go").expect("function");
    assert_eq!(go.visibility.as_deref(), Some("export"));
    assert_eq!(go.return_type.as_deref(), Some("number"));
}

#[test]
fn python_comment_fallback_docstring() {
    let content = "# helper\ndef f():\n    pass\n";
    let r = parse_content("c.py", content).expect("parse");
    assert_eq!(r.symbols[0].docstring.as_deref(), Some("helper"));
}

#[test]
fn duplicate_function_names_share_one_call_list() {
    // The call pass maps one name to one call list; for duplicate names the
    // later declaration's list shadows the earlier one.
    let content = "def f():\n    a()\n\ndef f():\n    b()\n";
    let r = parse_content("dup.py", content).expect("parse");
    assert_eq!(r.symbols.len(), 2);
    assert_eq!(r.symbols[0].calls, vec!["b".to_string()]);
    assert_eq!(r.symbols[1].calls, vec!["b".to_string()]);
}

#[test]
fn call_list_keeps_first_occurrence_only() {
    let content = "def f():\n    a()\n    b()\n    a()\n";
    let r = parse_content("d.py", content).expect("parse");
    let f = &r.symbols[0];
    assert_eq!(f.calls.iter().filter(|c| c.as_str() == "a").count(), 1);
    assert!(f.calls.contains(&"a".to_string()));
    assert!(f.calls.contains(&"b".to_string()));
}

#[test]
fn dotted_call_keeps_last_segment() {
    let content = "def f():\n    x.y.z()\n";
    let r = parse_content("d2.py", content).expect("parse");
    assert_eq!(r.symbols[0].calls, vec!["z".to_string()]);
}

#[test]
fn route_decorator_signature_scores_devdocs() {
    let mut store = GraphStore::new();
    let content = "@app.get('/x')\ndef handler():\n    return 1\n";
    let facts = parse_content("h.py", content).expect("parse");
    store.ingest_symbols("r", "h.py", &facts);
    let rows = store.get_all_symbols("r");
    assert_eq!(rows.len(), 1);
    let r = classify(&store, "r");
    // The signature itself holds no decorator text, so only path- and
    // language-based signals can fire here.
    assert!(r.signals.contains(&"Python detected -> check for FastAPI/Flask routes".to_string()));
}

#[test]
fn decorator_in_stored_signature_fires_route_signal() {
    let sym = Symbol {
        name: "handler".to_string(),
        kind: "function".to_string(),
        range: (1, 2),
        content_preview: String::new(),
        docstring: None,
        signature: Some("@app.get('/x') def handler()".to_string()),
        params: Vec::new(),
        return_type: None,
        visibility: None,
        parent_class: None,
        decorators: Vec::new(),
        calls: Vec::new(),
        bases: Vec::new(),
    };
    let facts = ParsingResult {
        language: Language::Python,
        symbols: vec![sym],
        imports: Vec::new(),
        exports: Vec::new(),
    };
    let mut store = GraphStore::new();
    store.ingest_symbols("r", "h.py", &facts);
    let r = classify(&store, "r");
    assert!(r.signals.contains(&"route decorators found -> API".to_string()));
}
