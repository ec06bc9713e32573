//! Import extraction: finds each language's import form in the tree and
//! decomposes it into a raw capture, a source module, and imported names.

use vstd::prelude::*;
use vstd::string::*;
use crate::lang::Language;
use crate::tree::{SynNode, spec_child_by_field};
use crate::facts::{Import, ImportV};
use crate::text::{
    spec_starts_with, spec_split2, spec_trim, spec_trim_start_matches, spec_trim_each,
    spec_split_char, find_sub, spec_trim_in, spec_replace, spec_keep_nonempty, starts_with,
    split2, trim, trim_start_matches, trim_each, split_char, find_str, copy_range, replace_str,
    keep_nonempty, trim_in, str_to_chars, chars_to_string, to_strings, range_eq_str,
};

verus! {

/// The decomposition of one raw import form: the source module, when the
/// language's syntax names one, and the imported names.
pub open spec fn spec_import_details(raw: Seq<char>, lang: Language) -> (Option<Seq<char>>, Seq<
    Seq<char>,
>) {
    match lang {
        Language::Python => {
            if spec_starts_with(raw, "from "@) {
                let (before, after) = spec_split2(raw, " import "@);
                let source = spec_trim(spec_trim_start_matches(before, "from "@));
                let names = match after {
                    Option::Some(a) => spec_trim_each(spec_split_char(a, ',')),
                    Option::None => Seq::empty(),
                };
                (Option::Some(source), names)
            } else {
                (Option::None, seq![spec_trim(spec_trim_start_matches(raw, "import "@))])
            }
        },
        Language::TypeScript | Language::JavaScript => {
            let i = find_sub(raw, " from "@);
            if i >= 0 && i + " from "@.len() <= raw.len() {
                let source = spec_trim_in(spec_trim(raw.skip(i + " from "@.len())), "'\";"@);
                let cleaned = spec_replace(
                    spec_replace(spec_replace(raw.take(i), "import"@, Seq::empty()), "{"@, Seq::empty()),
                    "}"@,
                    Seq::empty(),
                );
                let names = spec_keep_nonempty(spec_trim_each(spec_split_char(cleaned, ',')));
                (Option::Some(source), names)
            } else {
                (Option::None, seq![raw])
            }
        },
        _ => (Option::None, seq![raw]),
    }
}

/// Decomposes one raw import form, on character vectors.
pub fn import_details_chars(raw: &Vec<char>, lang: &Language) -> (r: (
    Option<Vec<char>>,
    Vec<Vec<char>>,
))
    ensures
        ({
            let (s, ns) = spec_import_details(raw@, *lang);
            &&& match r.0 {
                Option::Some(v) => s == Option::Some(v@),
                Option::None => s is None,
            }
            &&& r.1.deep_view() == ns
        }),
{
    match lang {
        Language::Python => {
            if starts_with(raw, "from ") {
                let (before, after) = split2(raw, " import ");
                let source = trim(&trim_start_matches(&before, "from "));
                let names = match after {
                    Some(a) => trim_each(&split_char(&a, ',')),
                    None => Vec::new(),
                };
                proof {
                    if (spec_split2(raw@, " import "@).1 is None) {
                        assert(names.deep_view() =~= Seq::<Seq<char>>::empty());
                    }
                }
                (Some(source), names)
            } else {
                let nm = trim(&trim_start_matches(raw, "import "));
                let mut names: Vec<Vec<char>> = Vec::new();
                names.push(nm);
                proof {
                    assert(names.deep_view() =~~= seq![
                        spec_trim(spec_trim_start_matches(raw@, "import "@)),
                    ]);
                }
                (None, names)
            }
        },
        Language::TypeScript | Language::JavaScript => {
            let n = raw.len();
            match find_str(raw, " from ") {
                Some(i) => {
                    proof {
                        reveal_strlit("import");
                        reveal_strlit("{");
                        reveal_strlit("}");
                        reveal_strlit("");
                        assert(""@ =~= Seq::<char>::empty());
                    }
                    let sep_len = " from ".unicode_len();
                    let srcpart = copy_range(raw, i + sep_len, n);
                    proof {
                        assert(srcpart@ =~= raw@.skip(i + " from "@.len()));
                    }
                    let source = trim_in(&trim(&srcpart), "'\";");
                    let names_part = copy_range(raw, 0, i);
                    proof {
                        assert(names_part@ =~= raw@.take(i as int));
                    }
                    let c1 = replace_str(&names_part, "import", "");
                    let c2 = replace_str(&c1, "{", "");
                    let c3 = replace_str(&c2, "}", "");
                    let names = keep_nonempty(trim_each(&split_char(&c3, ',')));
                    (Some(source), names)
                },
                None => {
                    let mut names: Vec<Vec<char>> = Vec::new();
                    names.push(copy_range(raw, 0, n));
                    proof {
                        assert(raw@.subrange(0, n as int) =~= raw@);
                        assert(names.deep_view() =~~= seq![raw@]);
                    }
                    (None, names)
                },
            }
        },
        _ => {
            let mut names: Vec<Vec<char>> = Vec::new();
            names.push(copy_range(raw, 0, raw.len()));
            proof {
                assert(raw@.subrange(0, raw@.len() as int) =~= raw@);
                assert(names.deep_view() =~~= seq![raw@]);
            }
            (None, names)
        },
    }
}

/// Decomposes one raw import form into (source module, imported names).
pub fn parse_import_details(raw: &str, lang: Language) -> (r: (Option<String>, Vec<String>))
    ensures
        ({
            let (s, ns) = spec_import_details(raw@, lang);
            &&& match r.0 {
                Option::Some(v) => s == Option::Some(v@),
                Option::None => s is None,
            }
            &&& r.1.deep_view() == ns
        }),
{
    let chars = str_to_chars(raw);
    let (source, names) = import_details_chars(&chars, &lang);
    let source_s = match source {
        Some(v) => Some(chars_to_string(&v)),
        None => None,
    };
    (source_s, to_strings(&names))
}

/// Whether `n` is an import form of `lang`.
pub open spec fn spec_is_import_node(n: SynNode, lang: Language) -> bool {
    match lang {
        Language::Python => n.kind@ == "import_statement"@ || n.kind@ == "import_from_statement"@,
        Language::TypeScript | Language::JavaScript => n.kind@ == "import_statement"@,
        Language::Rust => n.kind@ == "use_declaration"@,
        Language::Go | Language::Java => n.kind@ == "import_declaration"@,
        Language::Cpp => n.kind@ == "preproc_include"@,
        Language::Ruby => n.kind@ == "call"@ && match spec_child_by_field(n, "method"@) {
            Option::Some(m) => m.kind@ == "identifier"@ && m.text@ == "require"@,
            Option::None => false,
        },
        Language::Php => n.kind@ == "namespace_use_declaration"@,
        Language::Unknown => false,
    }
}

/// Whether `n` is an import form of `lang`.
pub fn is_import_node(n: &SynNode, lang: &Language) -> (r: bool)
    ensures
        r == spec_is_import_node(*n, *lang),
{
    match lang {
        Language::Python => n.is_kind("import_statement") || n.is_kind("import_from_statement"),
        Language::TypeScript | Language::JavaScript => n.is_kind("import_statement"),
        Language::Rust => n.is_kind("use_declaration"),
        Language::Go | Language::Java => n.is_kind("import_declaration"),
        Language::Cpp => n.is_kind("preproc_include"),
        Language::Ruby => {
            if !n.is_kind("call") {
                return false;
            }
            match n.child_by_field("method") {
                Some(m) => {
                    m.is_kind("identifier") && {
                        let mt = chars_eq_str(&m.text, "require");
                        mt
                    }
                },
                None => false,
            }
        },
        Language::Php => n.is_kind("namespace_use_declaration"),
        Language::Unknown => false,
    }
}

/// The import record one import node yields.
pub open spec fn spec_import_of(n: SynNode, lang: Language) -> ImportV {
    ImportV {
        raw: n.text@,
        source: spec_import_details(n.text@, lang).0,
        names: spec_import_details(n.text@, lang).1,
    }
}

/// All imports in the subtree rooted at `n`, in document order.
pub open spec fn spec_imports_in(n: SynNode, lang: Language) -> Seq<ImportV>
    decreases n,
{
    (if spec_is_import_node(n, lang) {
        seq![spec_import_of(n, lang)]
    } else {
        Seq::empty()
    }) + spec_imports_under(n.children@, lang)
}

/// All imports in the subtrees of `s`, in document order.
pub open spec fn spec_imports_under(s: Seq<SynNode>, lang: Language) -> Seq<ImportV>
    decreases s,
{
    if s.len() == 0 {
        Seq::empty()
    } else {
        spec_imports_under(s.subrange(0, s.len() - 1), lang) + spec_imports_in(
            s[s.len() - 1],
            lang,
        )
    }
}

/// Collects the imports of the subtree rooted at `n` onto `out`.
fn collect_imports(n: &SynNode, lang: &Language, out: &mut Vec<Import>)
    ensures
        final(out).deep_view() == old(out).deep_view() + spec_imports_in(*n, *lang),
    decreases *n,
{
    let ghost base = old(out).deep_view();
    let ghost own: Seq<ImportV> = if spec_is_import_node(*n, *lang) {
        seq![spec_import_of(*n, *lang)]
    } else {
        Seq::empty()
    };
    if is_import_node(n, lang) {
        let raw = chars_to_string(&n.text);
        let (source, names) = import_details_chars(&n.text, lang);
        let source_s = match source {
            Some(v) => Some(chars_to_string(&v)),
            None => None,
        };
        let names_s = to_strings(&names);
        let ghost prev = out.deep_view();
        out.push(Import { raw, source: source_s, names: names_s });
        proof {
            assert(out.deep_view() =~= prev.push(spec_import_of(*n, *lang)));
            assert(out.deep_view() =~= base + own);
        }
    }
    let m = n.children.len();
    let mut i: usize = 0;
    while i < m
        invariant
            i <= m,
            m == n.children@.len(),
            out.deep_view() == base + own + spec_imports_under(
                n.children@.subrange(0, i as int),
                *lang,
            ),
        decreases m - i,
    {
        collect_imports(&n.children[i], lang, out);
        proof {
            let k = i as int;
            let pre = n.children@.subrange(0, k + 1);
            assert(pre.subrange(0, k) =~= n.children@.subrange(0, k));
            assert(pre[k] == n.children@[k]);
            assert(out.deep_view() =~= base + own + spec_imports_under(pre, *lang));
        }
        i = i + 1;
    }
    proof {
        assert(n.children@.subrange(0, m as int) =~= n.children@);
    }
}

/// Extracts every import of the file, in document order.
pub fn extract_imports(root: &SynNode, lang: &Language) -> (r: Vec<Import>)
    ensures
        r.deep_view() == spec_imports_in(*root, *lang),
{
    let mut out: Vec<Import> = Vec::new();
    collect_imports(root, lang, &mut out);
    proof {
        assert(Seq::<ImportV>::empty() + spec_imports_in(*root, *lang) =~= spec_imports_in(
            *root,
            *lang,
        ));
    }
    out
}

/// Compares a character vector against a string slice.
pub fn chars_eq_str(v: &Vec<char>, s: &str) -> (r: bool)
    ensures
        r == (v@ == s@),
{
    let n = v.len();
    if s.unicode_len() != n {
        return false;
    }
    proof {
        assert(v@.subrange(0, n as int) =~= v@);
    }
    range_eq_str(v, 0, n, s)
}

} // verus!
