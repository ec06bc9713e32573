//! Tests of the extractor: language detection, import decomposition, and
//! whole-file extraction through the real grammars.

use codegraph::lang::{detect_language, Language};
use codegraph::imports::parse_import_details;
use codegraph::extract::{parse_content, symbol_ids_unique};

#[test]
fn detects_python_by_extension() {
    assert_eq!(detect_language("foo.py"), Language::Python);
    assert_eq!(detect_language("foo.pyw"), Language::Python);
}

#[test]
fn detects_languages_under_directories() {
    assert_eq!(detect_language("src/mod.rs"), Language::Rust);
    assert_eq!(detect_language("a/b/c.ts"), Language::TypeScript);
    assert_eq!(detect_language("web/app.jsx"), Language::JavaScript);
    assert_eq!(detect_language("pkg/main.go"), Language::Go);
    assert_eq!(detect_language("com/x/Y.java"), Language::Java);
    assert_eq!(detect_language("native/lib.hpp"), Language::Cpp);
    assert_eq!(detect_language("app/models/user.rb"), Language::Ruby);
    assert_eq!(detect_language("web/index.php"), Language::Php);
}

#[test]
fn unknown_extensions_are_unknown() {
    assert_eq!(detect_language("noext"), Language::Unknown);
    assert_eq!(detect_language(".hidden"), Language::Unknown);
    assert_eq!(detect_language("archive.tar.gz"), Language::Unknown);
    assert_eq!(detect_language("data.txt"), Language::Unknown);
}

#[test]
fn last_extension_wins() {
    assert_eq!(detect_language("a.rs.py"), Language::Python);
}

#[test]
fn python_from_import_decomposes() {
    let (source, names) = parse_import_details("from foo.bar import baz, qux", Language::Python);
    assert_eq!(source.as_deref(), Some("foo.bar"));
    assert_eq!(names, vec!["baz".to_string(), "qux".to_string()]);
}

#[test]
fn python_plain_import_decomposes() {
    let (source, names) = parse_import_details("import os", Language::Python);
    assert!(source.is_none());
    assert_eq!(names, vec!["os".to_string()]);
}

#[test]
fn typescript_import_decomposes() {
    let (source, names) =
        parse_import_details("import { X, Y } from 'module'", Language::TypeScript);
    assert_eq!(source.as_deref(), Some("module"));
    assert_eq!(names, vec!["X".to_string(), "Y".to_string()]);
}

#[test]
fn other_languages_keep_raw_import() {
    let (source, names) = parse_import_details("#include <stdio.h>", Language::Cpp);
    assert!(source.is_none());
    assert_eq!(names, vec!["#include <stdio.h>".to_string()]);
}

#[test]
fn unsupported_extension_extracts_empty() {
    let r = parse_content("notes.txt", "def foo(): pass").expect("no error");
    assert_eq!(r.language, Language::Unknown);
    assert!(r.symbols.is_empty());
    assert!(r.imports.is_empty());
    assert!(r.exports.is_empty());
}

#[test]
fn python_two_functions_with_docstring_and_call() {
    let content = "def foo():\n    \"\"\"doc\"\"\"\n    return bar()\n\ndef bar():\n    pass\n";
    let r = parse_content("t.py", content).expect("parse");
    assert_eq!(r.language, Language::Python);
    assert_eq!(r.symbols.len(), 2);
    assert_eq!(r.symbols[0].name, "foo");
    assert_eq!(r.symbols[0].kind, "function");
    assert_eq!(r.symbols[0].docstring.as_deref(), Some("doc"));
    assert_eq!(r.symbols[0].calls, vec!["bar".to_string()]);
    assert_eq!(r.symbols[1].name, "bar");
    assert_eq!(r.symbols[1].kind, "function");
    assert!(r.symbols[1].docstring.is_none());
    assert!(r.symbols[1].calls.is_empty());
    assert!(symbol_ids_unique(&r));
}

#[test]
fn python_extraction_is_deterministic() {
    let content = "import os\nfrom a.b import c\n\nclass K(Base):\n    def m(self, x: int = 1):\n        return len(x)\n";
    let r1 = parse_content("m.py", content).expect("parse");
    let r2 = parse_content("m.py", content).expect("parse");
    assert_eq!(r1.symbols.len(), r2.symbols.len());
    for (a, b) in r1.symbols.iter().zip(r2.symbols.iter()) {
        assert_eq!(a.name, b.name);
        assert_eq!(a.kind, b.kind);
        assert_eq!(a.range, b.range);
        assert_eq!(a.content_preview, b.content_preview);
        assert_eq!(a.docstring, b.docstring);
        assert_eq!(a.signature, b.signature);
        assert_eq!(a.return_type, b.return_type);
        assert_eq!(a.visibility, b.visibility);
        assert_eq!(a.parent_class, b.parent_class);
        assert_eq!(a.decorators, b.decorators);
        assert_eq!(a.calls, b.calls);
        assert_eq!(a.bases, b.bases);
    }
    assert_eq!(r1.imports.len(), r2.imports.len());
    for (a, b) in r1.imports.iter().zip(r2.imports.iter()) {
        assert_eq!(a.raw, b.raw);
        assert_eq!(a.source, b.source);
        assert_eq!(a.names, b.names);
    }
    assert_eq!(r1.exports, r2.exports);
}

#[test]
fn python_class_with_method_and_bases() {
    let content = "class K(Base):\n    def m(self):\n        pass\n";
    let r = parse_content("k.py", content).expect("parse");
    assert_eq!(r.symbols.len(), 2);
    assert_eq!(r.symbols[0].name, "K");
    assert_eq!(r.symbols[0].kind, "class");
    assert_eq!(r.symbols[0].bases, vec!["Base".to_string()]);
    assert_eq!(r.symbols[1].name, "m");
    assert_eq!(r.symbols[1].kind, "method");
    assert_eq!(r.symbols[1].parent_class.as_deref(), Some("K"));
}

#[test]
fn python_imports_are_extracted() {
    let content = "import os\nfrom a.b import c, d\n";
    let r = parse_content("i.py", content).expect("parse");
    assert_eq!(r.imports.len(), 2);
    assert_eq!(r.imports[0].raw, "import os");
    assert!(r.imports[0].source.is_none());
    assert_eq!(r.imports[0].names, vec!["os".to_string()]);
    assert_eq!(r.imports[1].raw, "from a.b import c, d");
    assert_eq!(r.imports[1].source.as_deref(), Some("a.b"));
    assert_eq!(r.imports[1].names, vec!["c".to_string(), "d".to_string()]);
}

#[test]
fn python_params_skip_self_and_keep_defaults() {
    let content = "class K:\n    def m(self, x: int = 1, y = None):\n        pass\n";
    let r = parse_content("p.py", content).expect("parse");
    let m = r.symbols.iter().find(|s| s.name == "m").expect("method");
    assert_eq!(m.params.len(), 2);
    assert_eq!(m.params[0].name, "x");
    assert_eq!(m.params[0].type_annotation.as_deref(), Some("int"));
    assert_eq!(m.params[0].default.as_deref(), Some("1"));
    assert_eq!(m.params[1].name, "y");
    assert!(m.params[1].type_annotation.is_none());
    assert_eq!(m.params[1].default.as_deref(), Some("None"));
}

#[test]
fn python_visibility_conventions() {
    let content = "def pub():\n    pass\n\ndef _priv():\n    pass\n\ndef __init__():\n    pass\n";
    let r = parse_content("v.py", content).expect("parse");
    assert_eq!(r.symbols[0].visibility.as_deref(), Some("public"));
    assert_eq!(r.symbols[1].visibility.as_deref(), Some("private"));
    assert_eq!(r.symbols[2].visibility.as_deref(), Some("dunder"));
}

#[test]
fn python_decorated_function_keeps_decorators() {
    let content = "@app.route('/x')\ndef handler():\n    pass\n";
    let r = parse_content("d.py", content).expect("parse");
    assert_eq!(r.symbols.len(), 1);
    assert_eq!(r.symbols[0].name, "handler");
    assert_eq!(r.symbols[0].decorators, vec!["@app.route('/x')".to_string()]);
}

#[test]
fn rust_doc_comments_join() {
    let content = "/// First\n/// Second\npub fn run() {}\n";
    let r = parse_content("l.rs", content).expect("parse");
    assert_eq!(r.symbols.len(), 1);
    assert_eq!(r.symbols[0].name, "run");
    assert_eq!(r.symbols[0].kind, "function");
    assert_eq!(r.symbols[0].docstring.as_deref(), Some("First\nSecond"));
    assert_eq!(r.symbols[0].visibility.as_deref(), Some("pub"));
    assert_eq!(r.exports, vec!["pub".to_string()]);
}

#[test]
fn rust_impl_scope_names_methods() {
    let content = "struct S;\nimpl S {\n    fn go(&self) {}\n}\n";
    let r = parse_content("s.rs", content).expect("parse");
    let go = r.symbols.iter().find(|s| s.name == "go").expect("method");
    assert_eq!(go.parent_class.as_deref(), Some("S"));
}

#[test]
fn go_exports_are_capitalized_names() {
    let content = "package main\n\nfunc Foo() {}\n\nfunc bar() {}\n";
    let r = parse_content("m.go", content).expect("parse");
    assert_eq!(r.exports, vec!["Foo".to_string()]);
    assert_eq!(r.symbols.len(), 2);
    assert_eq!(r.symbols[0].name, "Foo");
    assert_eq!(r.symbols[1].name, "bar");
}

#[test]
fn javascript_arrow_function_and_class() {
    let content = "const go = () => {};\nclass W extends Base {\n  run() {}\n}\n";
    let r = parse_content("w.js", content).expect("parse");
    let go = r.symbols.iter().find(|s| s.name == "go").expect("arrow fn");
    assert_eq!(go.kind, "function");
    let w = r.symbols.iter().find(|s| s.name == "W").expect("class");
    assert_eq!(w.kind, "class");
    assert_eq!(w.bases, vec!["Base".to_string()]);
    let run = r.symbols.iter().find(|s| s.name == "run").expect("method");
    assert_eq!(run.kind, "method");
    assert_eq!(run.parent_class.as_deref(), Some("W"));
}

#[test]
fn typescript_interface_is_class_kind() {
    let content = "export interface P {\n  x: number;\n}\n";
    let r = parse_content("p.ts", content).expect("parse");
    let p = r.symbols.iter().find(|s| s.name == "P").expect("interface");
    assert_eq!(p.kind, "class");
    assert_eq!(r.exports.len(), 1);
}

#[test]
fn signature_stops_before_body() {
    let content = "def add(a, b):\n    return a + b\n";
    let r = parse_content("a.py", content).expect("parse");
    assert_eq!(r.symbols[0].signature.as_deref(), Some("def add(a, b)"));
}

#[test]
fn preview_is_first_line() {
    let content = "def long_one():\n    pass\n";
    let r = parse_content("p2.py", content).expect("parse");
    assert_eq!(r.symbols[0].content_preview, "def long_one():");
}

#[test]
fn ranges_are_one_based_lines() {
    let content = "def a():\n    pass\n\ndef b():\n    pass\n";
    let r = parse_content("r.py", content).expect("parse");
    assert_eq!(r.symbols[0].range.0, 1);
    assert_eq!(r.symbols[1].range.0, 4);
}

#[test]
fn duplicate_names_on_one_line_break_id_uniqueness() {
    let content = "function f() {} function f() {}\n";
    let r = parse_content("dup.js", content).expect("parse");
    assert_eq!(r.symbols.len(), 2);
    assert!(!symbol_ids_unique(&r));
}
