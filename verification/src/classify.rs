//! Heuristic classification of a repository's documentation audience:
//! developer documentation or consumer documentation, by weighted scoring
//! over the graph's read operations.
//!
//! Scores are counted in half-point units, so every weight of the scoring
//! table is an integer and the confidence is an exact rational: the winning
//! score over the sum of both scores.

use vstd::prelude::*;
use vstd::string::*;
use crate::store::{GraphStore, GraphStoreV};
use crate::reads::{
    CountRowV, FileRowV, SymbolRowV, count_key, spec_count_by_kind, spec_get_file_languages,
    spec_get_all_files, spec_get_all_symbols,
};
use crate::keyed::{first_key_at, lemma_first_key_at};
use crate::text::{find_sub, find_str, str_to_chars, append_str, chars_to_string};
use crate::encode::{spec_digits, u64_to_chars};
use crate::tree::str_eq;

verus! {

/// The outcome of classification: the audience, an exact confidence
/// rational, and the signals that fired.
pub struct ClassificationResult {
    pub doc_type: String,
    pub confidence_num: u64,
    pub confidence_den: u64,
    pub signals: Vec<String>,
}

/// Spec view of a `ClassificationResult`.
#[verifier::ext_equal]
pub ghost struct ClassificationResultV {
    pub doc_type: Seq<char>,
    pub confidence_num: int,
    pub confidence_den: int,
    pub signals: Seq<Seq<char>>,
}

impl DeepView for ClassificationResult {
    type V = ClassificationResultV;

    open spec fn deep_view(&self) -> ClassificationResultV {
        ClassificationResultV {
            doc_type: self.doc_type@,
            confidence_num: self.confidence_num as int,
            confidence_den: self.confidence_den as int,
            signals: self.signals.deep_view(),
        }
    }
}

/// The lowercase form of a string, a function of its characters alone.
pub uninterp spec fn lower_of(s: Seq<char>) -> Seq<char>;

/// Relies on `str::to_lowercase`: the lowercase mapping is a function of
/// the characters alone.
#[verifier::external_body]
fn to_lowercase(s: &str) -> (r: String)
    ensures
        r@ == lower_of(s@),
{
    s.to_lowercase()
}

/// The count stored under `k`, or zero.
pub open spec fn spec_count_of(counts: Seq<CountRowV>, k: Seq<char>) -> int {
    let i = first_key_at(counts, count_key(), k);
    if i < 0 || i >= counts.len() {
        0
    } else {
        counts[i].count
    }
}

/// Whether a count exists under `k`.
pub open spec fn spec_has_key(counts: Seq<CountRowV>, k: Seq<char>) -> bool {
    exists|j: int| 0 <= j < counts.len() && (#[trigger] counts[j]).key == k
}

/// Whether `n` occurs in `s`.
pub open spec fn spec_contains_sub(s: Seq<char>, n: Seq<char>) -> bool {
    find_sub(s, n) >= 0
}

/// Whether the lowercased path of some file row mentions one of the needles.
pub open spec fn spec_any_path(paths: Seq<FileRowV>, n1: Seq<char>, n2: Seq<char>, n3: Seq<char>)
    -> bool {
    exists|j: int|
        0 <= j < paths.len() && {
            let p = lower_of((#[trigger] paths[j]).path);
            spec_contains_sub(p, n1) || spec_contains_sub(p, n2) || spec_contains_sub(p, n3)
        }
}

/// Whether some symbol row's signature mentions a route decorator.
pub open spec fn spec_any_route_sig(rows: Seq<SymbolRowV>) -> bool {
    exists|j: int|
        0 <= j < rows.len() && {
            let sig = (#[trigger] rows[j]).signature;
            spec_contains_sub(sig, "@app."@) || spec_contains_sub(sig, "@router."@)
                || spec_contains_sub(sig, "app.get"@) || spec_contains_sub(sig, "app.post"@)
        }
}

/// Whether each scoring signal fires for this repository, in table order.
pub open spec fn spec_flags(g: GraphStoreV, repo: Seq<char>) -> Seq<bool> {
    let counts = spec_count_by_kind(g, repo);
    let funcs = spec_count_of(counts, "function"@);
    let classes = spec_count_of(counts, "class"@);
    let methods = spec_count_of(counts, "method"@);
    let langs = spec_get_file_languages(g, repo);
    let paths = spec_get_all_files(g, repo);
    let rows = spec_get_all_symbols(g, repo);
    seq![
        methods > funcs,
        classes > 5,
        funcs > 20,
        spec_has_key(langs, "Python"@),
        spec_has_key(langs, "JavaScript"@) || spec_has_key(langs, "TypeScript"@),
        spec_has_key(langs, "Cpp"@),
        spec_any_path(paths, "route"@, "endpoint"@, "api"@),
        spec_any_path(paths, "component"@, "pages"@, "views"@),
        spec_any_path(paths, "cli"@, "command"@, "cli"@),
        spec_any_path(paths, "client"@, "sdk"@, "client"@),
        spec_any_route_sig(rows),
    ]
}

/// The text of the scoring table's entry `i`, given the class and
/// function counts for the two numbered signals.
pub open spec fn spec_sig_text(classes: int, funcs: int, i: int) -> Seq<char> {
    if i == 0 {
        "more methods than functions -> likely OOP/API"@
    } else if i == 1 {
        spec_digits(classes) + " classes detected -> structured codebase"@
    } else if i == 2 {
        spec_digits(funcs) + " functions -> large API surface"@
    } else if i == 3 {
        "Python detected -> check for FastAPI/Flask routes"@
    } else if i == 4 {
        "JS/TS detected -> check for React components"@
    } else if i == 5 {
        "C++ detected -> likely library/system docs"@
    } else if i == 6 {
        "route/api files found"@
    } else if i == 7 {
        "component/page files found"@
    } else if i == 8 {
        "CLI files found"@
    } else if i == 9 {
        "SDK/client files found"@
    } else {
        "route decorators found -> API"@
    }
}

/// The half-point weight of the scoring table's entry `i`.
pub open spec fn spec_weight(i: int) -> int {
    if i == 0 {
        2
    } else if i == 1 {
        1
    } else if i == 2 {
        1
    } else if i == 3 {
        1
    } else if i == 4 {
        1
    } else if i == 5 {
        2
    } else if i == 6 {
        4
    } else if i == 7 {
        4
    } else if i == 8 {
        3
    } else if i == 9 {
        3
    } else {
        2
    }
}

/// Whether the scoring table's entry `i` scores for developer docs.
pub open spec fn spec_is_dev(i: int) -> bool {
    i != 4 && i != 7
}

/// The signal texts fired by the first `i` entries of the table.
pub open spec fn spec_sig_prefix(f: Seq<bool>, classes: int, funcs: int, i: int) -> Seq<
    Seq<char>,
>
    decreases i,
{
    if i <= 0 {
        Seq::empty()
    } else {
        spec_sig_prefix(f, classes, funcs, i - 1) + (if f[i - 1] {
            seq![spec_sig_text(classes, funcs, i - 1)]
        } else {
            Seq::empty()
        })
    }
}

/// The developer half-point score of the first `i` entries.
pub open spec fn spec_dev_prefix(f: Seq<bool>, i: int) -> int
    decreases i,
{
    if i <= 0 {
        0
    } else {
        spec_dev_prefix(f, i - 1) + (if f[i - 1] && spec_is_dev(i - 1) {
            spec_weight(i - 1)
        } else {
            0
        })
    }
}

/// The consumer half-point score of the first `i` entries.
pub open spec fn spec_consumer_prefix(f: Seq<bool>, i: int) -> int
    decreases i,
{
    if i <= 0 {
        0
    } else {
        spec_consumer_prefix(f, i - 1) + (if f[i - 1] && !spec_is_dev(i - 1) {
            spec_weight(i - 1)
        } else {
            0
        })
    }
}

/// The signal texts fired by a flag vector.
pub open spec fn spec_signals_of(f: Seq<bool>, classes: int, funcs: int) -> Seq<Seq<char>> {
    spec_sig_prefix(f, classes, funcs, 11)
}

/// The developer half-point score of a flag vector.
pub open spec fn spec_dev_of(f: Seq<bool>) -> int {
    spec_dev_prefix(f, 11)
}

/// The consumer half-point score of a flag vector.
pub open spec fn spec_consumer_of(f: Seq<bool>) -> int {
    spec_consumer_prefix(f, 11)
}

/// The signal texts that fire for a repository.
pub open spec fn spec_signals(g: GraphStoreV, repo: Seq<char>) -> Seq<Seq<char>> {
    let counts = spec_count_by_kind(g, repo);
    spec_signals_of(
        spec_flags(g, repo),
        spec_count_of(counts, "class"@),
        spec_count_of(counts, "function"@),
    )
}

/// The developer-documentation score of a repository, in half points.
pub open spec fn spec_dev_score(g: GraphStoreV, repo: Seq<char>) -> int {
    spec_dev_of(spec_flags(g, repo))
}

/// The consumer-documentation score of a repository, in half points.
pub open spec fn spec_consumer_score(g: GraphStoreV, repo: Seq<char>) -> int {
    spec_consumer_of(spec_flags(g, repo))
}

/// What classification yields: the winning side and the exact confidence
/// rational, or developer documentation at one half when nothing scored.
pub open spec fn spec_classify(g: GraphStoreV, repo: Seq<char>) -> ClassificationResultV {
    let dev = spec_dev_score(g, repo);
    let consumer = spec_consumer_score(g, repo);
    let total = dev + consumer;
    if total == 0 {
        ClassificationResultV {
            doc_type: "devdocs"@,
            confidence_num: 1,
            confidence_den: 2,
            signals: spec_signals(g, repo),
        }
    } else if dev > consumer {
        ClassificationResultV {
            doc_type: "devdocs"@,
            confidence_num: dev,
            confidence_den: total,
            signals: spec_signals(g, repo),
        }
    } else {
        ClassificationResultV {
            doc_type: "consumer"@,
            confidence_num: consumer,
            confidence_den: total,
            signals: spec_signals(g, repo),
        }
    }
}

/// Reads the count stored under `k`, or zero.
fn count_of(counts: &Vec<crate::reads::CountRow>, k: &str) -> (r: u64)
    ensures
        r as int == spec_count_of(counts.deep_view(), k@),
{
    let ghost dv = counts.deep_view();
    proof {
        lemma_first_key_at(dv, count_key(), k@);
    }
    let n = counts.len();
    let mut i: usize = 0;
    while i < n
        invariant
            i <= n,
            n == counts@.len(),
            dv == counts.deep_view(),
            forall|j: int| 0 <= j < i ==> (#[trigger] dv[j]).key != k@,
        decreases n - i,
    {
        proof {
            assert(dv[i as int] == counts@[i as int].deep_view());
        }
        if str_eq(counts[i].key.as_str(), k) {
            proof {
                let w = first_key_at(dv, count_key(), k@);
                assert(w >= 0);
                if w < i {
                    assert(dv[w].key != k@);
                }
                if w > i {
                    assert(dv[i as int].key != k@);
                }
            }
            return counts[i].count;
        }
        i = i + 1;
    }
    proof {
        let w = first_key_at(dv, count_key(), k@);
        if w >= 0 {
            assert(dv[w].key != k@);
        }
    }
    0
}

/// Whether a count exists under `k`.
fn has_key(counts: &Vec<crate::reads::CountRow>, k: &str) -> (r: bool)
    ensures
        r == spec_has_key(counts.deep_view(), k@),
{
    let ghost dv = counts.deep_view();
    let n = counts.len();
    let mut i: usize = 0;
    while i < n
        invariant
            i <= n,
            n == counts@.len(),
            dv == counts.deep_view(),
            forall|j: int| 0 <= j < i ==> (#[trigger] dv[j]).key != k@,
        decreases n - i,
    {
        proof {
            assert(dv[i as int] == counts@[i as int].deep_view());
        }
        if str_eq(counts[i].key.as_str(), k) {
            return true;
        }
        i = i + 1;
    }
    proof {
        if spec_has_key(dv, k@) {
            let w = choose|w: int| 0 <= w < dv.len() && (#[trigger] dv[w]).key == k@;
            assert(dv[w].key != k@);
        }
    }
    false
}

/// Whether `needle` occurs in `v`.
fn contains_sub(v: &Vec<char>, needle: &str) -> (r: bool)
    ensures
        r == spec_contains_sub(v@, needle@),
{
    match find_str(v, needle) {
        Some(_) => true,
        None => false,
    }
}

/// Whether the lowercased path of some file mentions one of the needles.
fn any_path(paths: &Vec<crate::reads::FileRow>, n1: &str, n2: &str, n3: &str) -> (r: bool)
    ensures
        r == spec_any_path(paths.deep_view(), n1@, n2@, n3@),
{
    let ghost dv = paths.deep_view();
    let n = paths.len();
    let mut i: usize = 0;
    while i < n
        invariant
            i <= n,
            n == paths@.len(),
            dv == paths.deep_view(),
            forall|j: int|
                0 <= j < i ==> {
                    let p = lower_of((#[trigger] dv[j]).path);
                    !(spec_contains_sub(p, n1@) || spec_contains_sub(p, n2@) || spec_contains_sub(
                        p,
                        n3@,
                    ))
                },
        decreases n - i,
    {
        proof {
            assert(dv[i as int] == paths@[i as int].deep_view());
        }
        let low = to_lowercase(paths[i].path.as_str());
        let lowc = str_to_chars(low.as_str());
        if contains_sub(&lowc, n1) || contains_sub(&lowc, n2) || contains_sub(&lowc, n3) {
            return true;
        }
        i = i + 1;
    }
    proof {
        if spec_any_path(dv, n1@, n2@, n3@) {
            let w = choose|w: int|
                0 <= w < dv.len() && {
                    let p = lower_of((#[trigger] dv[w]).path);
                    spec_contains_sub(p, n1@) || spec_contains_sub(p, n2@) || spec_contains_sub(
                        p,
                        n3@,
                    )
                };
            assert(0 <= w < dv.len());
        }
    }
    false
}

/// Whether some symbol's signature mentions a route decorator.
fn any_route_sig(rows: &Vec<crate::reads::SymbolRow>) -> (r: bool)
    ensures
        r == spec_any_route_sig(rows.deep_view()),
{
    let ghost dv = rows.deep_view();
    let n = rows.len();
    let mut i: usize = 0;
    while i < n
        invariant
            i <= n,
            n == rows@.len(),
            dv == rows.deep_view(),
            forall|j: int|
                0 <= j < i ==> {
                    let sig = (#[trigger] dv[j]).signature;
                    !(spec_contains_sub(sig, "@app."@) || spec_contains_sub(sig, "@router."@)
                        || spec_contains_sub(sig, "app.get"@) || spec_contains_sub(
                        sig,
                        "app.post"@,
                    ))
                },
        decreases n - i,
    {
        proof {
            assert(dv[i as int] == rows@[i as int].deep_view());
        }
        let sig = str_to_chars(rows[i].signature.as_str());
        if contains_sub(&sig, "@app.") || contains_sub(&sig, "@router.") || contains_sub(
            &sig,
            "app.get",
        ) || contains_sub(&sig, "app.post") {
            return true;
        }
        i = i + 1;
    }
    proof {
        if spec_any_route_sig(dv) {
            let w = choose|w: int|
                0 <= w < dv.len() && {
                    let sig = (#[trigger] dv[w]).signature;
                    spec_contains_sub(sig, "@app."@) || spec_contains_sub(sig, "@router."@)
                        || spec_contains_sub(sig, "app.get"@) || spec_contains_sub(
                        sig,
                        "app.post"@,
                    )
                };
            assert(0 <= w < dv.len());
        }
    }
    false
}

/// Builds the numbered signal text `<n> <suffix>`.
fn numbered_signal(n: u64, suffix: &str) -> (r: String)
    ensures
        r@ == spec_digits(n as int) + suffix@,
{
    let mut v = u64_to_chars(n);
    append_str(&mut v, suffix);
    chars_to_string(&v)
}

/// Computes which count-based signals fire.
fn count_flags(counts: &Vec<crate::reads::CountRow>, Ghost(g): Ghost<GraphStoreV>, Ghost(repo): Ghost<Seq<char>>)
    -> (r: (bool, bool, bool))
    requires
        counts.deep_view() == spec_count_by_kind(g, repo),
    ensures
        r.0 == (spec_count_of(spec_count_by_kind(g, repo), "method"@) > spec_count_of(
            spec_count_by_kind(g, repo),
            "function"@,
        )),
        r.1 == (spec_count_of(spec_count_by_kind(g, repo), "class"@) > 5),
        r.2 == (spec_count_of(spec_count_by_kind(g, repo), "function"@) > 20),
{
    let funcs = count_of(counts, "function");
    let classes = count_of(counts, "class");
    let methods = count_of(counts, "method");
    (methods > funcs, classes > 5, funcs > 20)
}

/// Computes which language-based signals fire.
fn lang_flags(langs: &Vec<crate::reads::CountRow>, Ghost(g): Ghost<GraphStoreV>, Ghost(repo): Ghost<Seq<char>>)
    -> (r: (bool, bool, bool))
    requires
        langs.deep_view() == spec_get_file_languages(g, repo),
    ensures
        r.0 == spec_has_key(spec_get_file_languages(g, repo), "Python"@),
        r.1 == (spec_has_key(spec_get_file_languages(g, repo), "JavaScript"@) || spec_has_key(
            spec_get_file_languages(g, repo),
            "TypeScript"@,
        )),
        r.2 == spec_has_key(spec_get_file_languages(g, repo), "Cpp"@),
{
    (
        has_key(langs, "Python"),
        has_key(langs, "JavaScript") || has_key(langs, "TypeScript"),
        has_key(langs, "Cpp"),
    )
}

/// Computes which path-based signals fire.
fn path_flags(paths: &Vec<crate::reads::FileRow>, Ghost(g): Ghost<GraphStoreV>, Ghost(repo): Ghost<Seq<char>>)
    -> (r: (bool, bool, bool, bool))
    requires
        paths.deep_view() == spec_get_all_files(g, repo),
    ensures
        r.0 == spec_any_path(spec_get_all_files(g, repo), "route"@, "endpoint"@, "api"@),
        r.1 == spec_any_path(spec_get_all_files(g, repo), "component"@, "pages"@, "views"@),
        r.2 == spec_any_path(spec_get_all_files(g, repo), "cli"@, "command"@, "cli"@),
        r.3 == spec_any_path(spec_get_all_files(g, repo), "client"@, "sdk"@, "client"@),
{
    (
        any_path(paths, "route", "endpoint", "api"),
        any_path(paths, "component", "pages", "views"),
        any_path(paths, "cli", "command", "cli"),
        any_path(paths, "client", "sdk", "client"),
    )
}

/// Assembles the flag vector.
#[verifier::rlimit(100)]
fn compute_flags(
    counts: &Vec<crate::reads::CountRow>,
    langs: &Vec<crate::reads::CountRow>,
    paths: &Vec<crate::reads::FileRow>,
    rows: &Vec<crate::reads::SymbolRow>,
    Ghost(g): Ghost<GraphStoreV>,
    Ghost(repo): Ghost<Seq<char>>,
) -> (r: Vec<bool>)
    requires
        counts.deep_view() == spec_count_by_kind(g, repo),
        langs.deep_view() == spec_get_file_languages(g, repo),
        paths.deep_view() == spec_get_all_files(g, repo),
        rows.deep_view() == spec_get_all_symbols(g, repo),
    ensures
        r@ == spec_flags(g, repo),
{
    let (c0, c1, c2) = count_flags(counts, Ghost(g), Ghost(repo));
    let (l0, l1, l2) = lang_flags(langs, Ghost(g), Ghost(repo));
    let (p0, p1, p2, p3) = path_flags(paths, Ghost(g), Ghost(repo));
    let s0 = any_route_sig(rows);
    let mut r: Vec<bool> = Vec::new();
    r.push(c0);
    r.push(c1);
    r.push(c2);
    r.push(l0);
    r.push(l1);
    r.push(l2);
    r.push(p0);
    r.push(p1);
    r.push(p2);
    r.push(p3);
    r.push(s0);
    proof {
        let fl = spec_flags(g, repo);
        assert(r@[0] == fl[0]) by {}
        assert(r@[1] == fl[1]) by {}
        assert(r@[2] == fl[2]) by {}
        assert(r@[3] == fl[3]) by {}
        assert(r@[4] == fl[4]) by {}
        assert(r@[5] == fl[5]) by {}
        assert(r@[6] == fl[6]) by {}
        assert(r@[7] == fl[7]) by {}
        assert(r@[8] == fl[8]) by {}
        assert(r@[9] == fl[9]) by {}
        assert(r@[10] == fl[10]) by {}
        assert(r@ =~= fl);
    }
    r
}

/// The text of the scoring table's entry `i`.
fn sig_text(i: usize, classes: u64, funcs: u64) -> (r: String)
    requires
        i < 11,
    ensures
        r@ == spec_sig_text(classes as int, funcs as int, i as int),
{
    if i == 0 {
        String::from_str("more methods than functions -> likely OOP/API")
    } else if i == 1 {
        numbered_signal(classes, " classes detected -> structured codebase")
    } else if i == 2 {
        numbered_signal(funcs, " functions -> large API surface")
    } else if i == 3 {
        String::from_str("Python detected -> check for FastAPI/Flask routes")
    } else if i == 4 {
        String::from_str("JS/TS detected -> check for React components")
    } else if i == 5 {
        String::from_str("C++ detected -> likely library/system docs")
    } else if i == 6 {
        String::from_str("route/api files found")
    } else if i == 7 {
        String::from_str("component/page files found")
    } else if i == 8 {
        String::from_str("CLI files found")
    } else if i == 9 {
        String::from_str("SDK/client files found")
    } else {
        String::from_str("route decorators found -> API")
    }
}

/// The half-point weight of the scoring table's entry `i`.
fn weight(i: usize) -> (r: u64)
    ensures
        r as int == spec_weight(i as int),
        r <= 4,
{
    if i == 0 {
        2
    } else if i == 1 {
        1
    } else if i == 2 {
        1
    } else if i == 3 {
        1
    } else if i == 4 {
        1
    } else if i == 5 {
        2
    } else if i == 6 {
        4
    } else if i == 7 {
        4
    } else if i == 8 {
        3
    } else if i == 9 {
        3
    } else {
        2
    }
}

/// Whether the scoring table's entry `i` scores for developer docs.
fn is_dev(i: usize) -> (r: bool)
    ensures
        r == spec_is_dev(i as int),
{
    i != 4 && i != 7
}

/// Computes the fired signals and both scores from the flag vector.
fn score_repo(flags: &Vec<bool>, classes: u64, funcs: u64) -> (r: (Vec<String>, u64, u64))
    requires
        flags@.len() == 11,
    ensures
        r.0.deep_view() == spec_signals_of(flags@, classes as int, funcs as int),
        r.1 as int == spec_dev_of(flags@),
        r.2 as int == spec_consumer_of(flags@),
        r.1 <= 44,
        r.2 <= 44,
{
    let ghost f = flags@;
    let mut signals: Vec<String> = Vec::new();
    let mut dev: u64 = 0;
    let mut consumer: u64 = 0;
    let mut i: usize = 0;
    proof {
        assert(signals.deep_view() =~= spec_sig_prefix(f, classes as int, funcs as int, 0));
    }
    #[verifier::loop_isolation(true)]
    while i < 11
        invariant
            i <= 11,
            f == flags@,
            f.len() == 11,
            signals.deep_view() == spec_sig_prefix(f, classes as int, funcs as int, i as int),
            dev as int == spec_dev_prefix(f, i as int),
            consumer as int == spec_consumer_prefix(f, i as int),
            dev <= 4 * i,
            consumer <= 4 * i,
        decreases 11 - i,
    {
        let ghost prev = signals.deep_view();
        if flags[i] {
            signals.push(sig_text(i, classes, funcs));
            proof {
                assert(signals.deep_view() =~= prev.push(
                    spec_sig_text(classes as int, funcs as int, i as int),
                ));
                assert(signals.deep_view() =~= spec_sig_prefix(
                    f,
                    classes as int,
                    funcs as int,
                    i + 1,
                ));
            }
            if is_dev(i) {
                dev = dev + weight(i);
            } else {
                consumer = consumer + weight(i);
            }
        } else {
            proof {
                assert(signals.deep_view() =~= spec_sig_prefix(
                    f,
                    classes as int,
                    funcs as int,
                    i + 1,
                ));
            }
        }
        i = i + 1;
    }
    (signals, dev, consumer)
}

/// Classifies a repository's documentation audience from its graph.
pub fn classify(store: &GraphStore, repo_name: &str) -> (r: ClassificationResult)
    ensures
        r.deep_view() == spec_classify(store.deep_view(), repo_name@),
{
    let ghost g = store.deep_view();
    let counts = store.count_by_kind(repo_name);
    let langs = store.get_file_languages(repo_name);
    let paths = store.get_all_files(repo_name);
    let rows = store.get_all_symbols(repo_name);
    let flags = compute_flags(&counts, &langs, &paths, &rows, Ghost(g), Ghost(repo_name@));
    let classes = count_of(&counts, "class");
    let funcs = count_of(&counts, "function");
    let (signals, dev, consumer) = score_repo(&flags, classes, funcs);
    let total = dev + consumer;
    if total == 0 {
        let r = ClassificationResult {
            doc_type: String::from_str("devdocs"),
            confidence_num: 1,
            confidence_den: 2,
            signals,
        };
        proof {
            assert(r.deep_view() =~~= spec_classify(g, repo_name@));
        }
        r
    } else if dev > consumer {
        let r = ClassificationResult {
            doc_type: String::from_str("devdocs"),
            confidence_num: dev,
            confidence_den: total,
            signals,
        };
        proof {
            assert(r.deep_view() =~~= spec_classify(g, repo_name@));
        }
        r
    } else {
        let r = ClassificationResult {
            doc_type: String::from_str("consumer"),
            confidence_num: consumer,
            confidence_den: total,
            signals,
        };
        proof {
            assert(r.deep_view() =~~= spec_classify(g, repo_name@));
        }
        r
    }
}

/// The classification confidence is the winning score over the sum of
/// both scores when the sum is non-zero; when both scores are zero the
/// result is exactly developer documentation at one half, with no signals.
pub proof fn lemma_confidence(g: GraphStoreV, repo: Seq<char>)
    ensures
        ({
            let r = spec_classify(g, repo);
            let dev = spec_dev_score(g, repo);
            let consumer = spec_consumer_score(g, repo);
            &&& dev + consumer == 0 ==> r.doc_type == "devdocs"@ && r.confidence_num == 1
                && r.confidence_den == 2 && r.signals.len() == 0
            &&& dev + consumer > 0 && dev > consumer ==> r.doc_type == "devdocs"@
                && r.confidence_num == dev && r.confidence_den == dev + consumer
            &&& dev + consumer > 0 && dev <= consumer ==> r.doc_type == "consumer"@
                && r.confidence_num == consumer && r.confidence_den == dev + consumer
            &&& r.confidence_num <= r.confidence_den
        }),
{
    let f = spec_flags(g, repo);
    let counts = spec_count_by_kind(g, repo);
    let classes = spec_count_of(counts, "class"@);
    let funcs = spec_count_of(counts, "function"@);
    lemma_prefix_scores(f, classes, funcs, 11);
}

/// The prefix scores are non-negative, and when their sum is zero the
/// prefix signals are empty.
proof fn lemma_prefix_scores(f: Seq<bool>, classes: int, funcs: int, i: int)
    ensures
        spec_dev_prefix(f, i) >= 0,
        spec_consumer_prefix(f, i) >= 0,
        spec_dev_prefix(f, i) + spec_consumer_prefix(f, i) == 0 ==> spec_sig_prefix(
            f,
            classes,
            funcs,
            i,
        ).len() == 0,
    decreases i,
{
    if i > 0 {
        lemma_prefix_scores(f, classes, funcs, i - 1);
        assert(spec_weight(i - 1) > 0);
    }
}

} // verus!
