//! Tests of the classifier and the orchestrator's decisions.

use codegraph::classify::classify;
use codegraph::extract::parse_content;
use codegraph::facts::ParsingResult;
use codegraph::index::{plan_index, record_outcome, FanoutWindow, IndexingStats, FANOUT_CAP};
use codegraph::lang::Language;
use codegraph::store::GraphStore;

#[test]
fn empty_store_classifies_devdocs_half() {
    let store = GraphStore::new();
    let r = classify(&store, "nothing");
    assert_eq!(r.doc_type, "devdocs");
    assert_eq!(r.confidence_num, 1);
    assert_eq!(r.confidence_den, 2);
    assert!(r.signals.is_empty());
}

#[test]
fn python_repository_scores_devdocs() {
    let mut store = GraphStore::new();
    let facts = parse_content("m.py", "def f():\n    pass\n").expect("parse");
    store.ingest_symbols("r", "m.py", &facts);
    let r = classify(&store, "r");
    assert_eq!(r.doc_type, "devdocs");
    assert_eq!(r.confidence_num, 1);
    assert_eq!(r.confidence_den, 1);
    assert_eq!(
        r.signals,
        vec!["Python detected -> check for FastAPI/Flask routes".to_string()]
    );
}

#[test]
fn route_paths_are_found_case_insensitively() {
    let mut store = GraphStore::new();
    let facts = parse_content("API/Routes.py", "def f():\n    pass\n").expect("parse");
    store.ingest_symbols("r", "API/Routes.py", &facts);
    let r = classify(&store, "r");
    assert!(r.signals.contains(&"route/api files found".to_string()));
}

#[test]
fn component_paths_score_consumer() {
    let mut store = GraphStore::new();
    let facts = parse_content("components/app.jsx", "const a = () => {};\n").expect("parse");
    store.ingest_symbols("r", "components/app.jsx", &facts);
    let r = classify(&store, "r");
    assert!(r.signals.contains(&"component/page files found".to_string()));
    assert!(r.signals.contains(&"JS/TS detected -> check for React components".to_string()));
    assert_eq!(r.doc_type, "consumer");
    assert_eq!(r.confidence_num, 5);
    assert_eq!(r.confidence_den, 5);
}

#[test]
fn confidence_is_winning_score_over_total() {
    let mut store = GraphStore::new();
    let py = parse_content("api/m.py", "def f():\n    pass\n").expect("parse");
    store.ingest_symbols("r", "api/m.py", &py);
    let js = parse_content("pages/a.js", "const a = () => {};\n").expect("parse");
    store.ingest_symbols("r", "pages/a.js", &js);
    let r = classify(&store, "r");
    assert_eq!(r.confidence_den, r.confidence_num + (r.confidence_den - r.confidence_num));
    assert!(r.confidence_num * 2 >= r.confidence_den);
    assert!(r.confidence_num <= r.confidence_den);
}

#[test]
fn plan_index_splits_by_extension() {
    let paths = vec![
        "a.py".to_string(),
        "b.txt".to_string(),
        "c.rs".to_string(),
        "README".to_string(),
    ];
    let (accepted, skipped) = plan_index(&paths);
    assert_eq!(accepted, vec!["a.py".to_string(), "c.rs".to_string()]);
    assert_eq!(skipped, 2);
}

#[test]
fn stats_count_only_successful_ingestions() {
    let mut stats = IndexingStats::default();
    record_outcome(&mut stats, 4, true);
    record_outcome(&mut stats, 9, false);
    record_outcome(&mut stats, 2, true);
    assert_eq!(stats.nodes_created, 5 + 3);
}

#[test]
fn fanout_window_never_exceeds_cap() {
    let mut w = FanoutWindow::new(FANOUT_CAP);
    let mut started = 0;
    let mut outstanding = 0;
    let mut max_outstanding = 0;
    let mut completed = 0;
    while started < 100 {
        if w.try_start() {
            started += 1;
            outstanding += 1;
            if outstanding > max_outstanding {
                max_outstanding = outstanding;
            }
        } else {
            assert_eq!(outstanding, FANOUT_CAP);
            w.complete();
            completed += 1;
            outstanding -= 1;
        }
    }
    while outstanding > 0 {
        w.complete();
        completed += 1;
        outstanding -= 1;
    }
    assert_eq!(completed, 100);
    assert!(max_outstanding <= FANOUT_CAP);
    assert_eq!(max_outstanding, FANOUT_CAP);
}

#[test]
fn parse_failure_reports_extraction_error_message() {
    let err = codegraph::facts::ExtractionError;
    assert_eq!(err.message(), "parse failed for a supported language");
}

#[test]
fn unknown_language_never_reaches_the_store() {
    let facts: ParsingResult = parse_content("x.bin", "garbage \u{1}\u{2}").expect("empty");
    assert_eq!(facts.language, Language::Unknown);
    let mut store = GraphStore::new();
    store.ingest_symbols("r", "x.bin", &facts);
    assert_eq!(store.symbols.len(), 0);
    assert_eq!(store.files.len(), 1);
}
