//! Docstring extraction, by each language's convention: a leading string
//! literal statement in the body (Python), a single preceding comment
//! (C-style languages, Go), or a contiguous run of preceding doc comments
//! (Rust).

use vstd::prelude::*;
use vstd::string::*;
use crate::lang::Language;
use crate::tree::{SynNode, spec_child_by_field};
use crate::enrich::{
    spec_first_named_child, first_named_child, prev_named_idx, prev_named_index,
};
use crate::text::{
    spec_trim, spec_trim_in, spec_trim_start_matches, spec_trim_end_matches, trim, trim_in,
    trim_start_matches, trim_end_matches, append_chars, append_str, chars_to_string,
};

verus! {

/// `parts` joined with the separator `sep`.
pub open spec fn spec_join(parts: Seq<Seq<char>>, sep: Seq<char>) -> Seq<char>
    decreases parts.len(),
{
    if parts.len() == 0 {
        Seq::empty()
    } else if parts.len() == 1 {
        parts[0]
    } else {
        spec_join(parts.subrange(0, parts.len() - 1), sep) + sep + parts[parts.len() - 1]
    }
}

/// Joins `parts` with the separator `sep`.
pub fn join_parts(parts: &Vec<Vec<char>>, sep: &str) -> (r: Vec<char>)
    ensures
        r@ == spec_join(parts.deep_view(), sep@),
{
    let n = parts.len();
    let mut r: Vec<char> = Vec::new();
    let ghost dv = parts.deep_view();
    let mut i: usize = 0;
    while i < n
        invariant
            i <= n,
            n == parts@.len(),
            dv == parts.deep_view(),
            r@ == spec_join(dv.subrange(0, i as int), sep@),
        decreases n - i,
    {
        if i > 0 {
            append_str(&mut r, sep);
        }
        append_chars(&mut r, &parts[i]);
        proof {
            let k = i as int;
            assert(dv.subrange(0, k + 1).subrange(0, k) =~= dv.subrange(0, k));
            assert(dv.subrange(0, k + 1)[k] == dv[k]);
            assert(dv[k] =~= parts@[k]@);
            if k == 0 {
                assert(r@ =~= spec_join(dv.subrange(0, 1), sep@));
            } else {
                assert(r@ =~= spec_join(dv.subrange(0, k + 1), sep@));
            }
        }
        i = i + 1;
    }
    proof {
        assert(dv.subrange(0, n as int) =~= dv);
    }
    r
}

/// One Rust doc comment, with its comment markers and whitespace trimmed.
pub open spec fn spec_rust_doc_line(t: Seq<char>) -> Seq<char> {
    spec_trim(
        spec_trim_start_matches(
            spec_trim_start_matches(spec_trim_start_matches(t, "///"@), "//!"@),
            "//"@,
        ),
    )
}

/// The contiguous run of comment siblings immediately above `s[idx]`, in
/// document order, each trimmed of its markers.
pub open spec fn spec_rust_docs(s: Seq<SynNode>, idx: int) -> Seq<Seq<char>>
    decreases idx,
{
    let p = prev_named_idx(s, idx);
    if p < 0 || p >= idx {
        Seq::empty()
    } else if s[p].kind@ == "line_comment"@ || s[p].kind@ == "block_comment"@ {
        spec_rust_docs(s, p) + seq![spec_rust_doc_line(s[p].text@)]
    } else {
        Seq::empty()
    }
}

/// Collects the Rust doc comments above `s[idx]`.
fn rust_docs(s: &Vec<SynNode>, idx: usize) -> (r: Vec<Vec<char>>)
    requires
        idx <= s@.len(),
    ensures
        r.deep_view() == spec_rust_docs(s@, idx as int),
    decreases idx,
{
    match prev_named_index(s, idx) {
        None => Vec::new(),
        Some(p) => {
            if s[p].is_kind("line_comment") || s[p].is_kind("block_comment") {
                let line = trim(
                    &trim_start_matches(
                        &trim_start_matches(&trim_start_matches(&s[p].text, "///"), "//!"),
                        "//",
                    ),
                );
                let mut r = rust_docs(s, p);
                let ghost prev = r.deep_view();
                r.push(line);
                proof {
                    assert(r.deep_view() =~~= prev.push(spec_rust_doc_line(s@[p as int].text@)));
                }
                r
            } else {
                Vec::new()
            }
        },
    }
}

/// The docstring convention for a previous-sibling comment: how the
/// comment text is cleaned per language family.
pub open spec fn spec_prev_comment_doc(s: Seq<SynNode>, idx: int, lang: Language) -> Option<
    Seq<char>,
> {
    let p = prev_named_idx(s, idx);
    if p < 0 {
        Option::None
    } else if s[p].kind@ == "comment"@ {
        match lang {
            Language::Python => Option::Some(
                spec_trim(spec_trim_start_matches(s[p].text@, "#"@)),
            ),
            Language::Go => Option::Some(spec_trim(spec_trim_start_matches(s[p].text@, "//"@))),
            _ => Option::Some(
                spec_trim(
                    spec_trim_end_matches(
                        spec_trim_start_matches(
                            spec_trim_start_matches(s[p].text@, "//"@),
                            "/*"@,
                        ),
                        "*/"@,
                    ),
                ),
            ),
        }
    } else {
        Option::None
    }
}

/// The docstring of the declaration `s[idx]`, by `lang`'s convention.
pub open spec fn spec_docstring(s: Seq<SynNode>, idx: int, lang: Language) -> Option<Seq<char>> {
    match lang {
        Language::Python => {
            let n = s[idx];
            match spec_child_by_field(n, "body"@) {
                Option::None => Option::None,
                Option::Some(body) => {
                    match spec_first_named_child(body) {
                        Option::None => Option::None,
                        Option::Some(first) => {
                            if first.kind@ == "expression_statement"@ {
                                match spec_first_named_child(first) {
                                    Option::None => Option::None,
                                    Option::Some(inner) => {
                                        if inner.kind@ == "string"@ {
                                            Option::Some(
                                                spec_trim(
                                                    spec_trim_in(
                                                        spec_trim_in(inner.text@, "\""@),
                                                        "'"@,
                                                    ),
                                                ),
                                            )
                                        } else {
                                            spec_prev_comment_doc(s, idx, lang)
                                        }
                                    },
                                }
                            } else {
                                spec_prev_comment_doc(s, idx, lang)
                            }
                        },
                    }
                },
            }
        },
        Language::JavaScript | Language::TypeScript | Language::Java | Language::Cpp
            | Language::Php | Language::Go => spec_prev_comment_doc(s, idx, lang),
        Language::Rust => {
            let docs = spec_rust_docs(s, idx);
            if docs.len() == 0 {
                Option::None
            } else {
                Option::Some(spec_join(docs, "\n"@))
            }
        },
        _ => Option::None,
    }
}

/// Cleans the previous-sibling comment above `s[idx]`, when there is one.
fn prev_comment_doc(s: &Vec<SynNode>, idx: usize, lang: &Language) -> (r: Option<Vec<char>>)
    requires
        idx <= s@.len(),
    ensures
        match r {
            Option::Some(v) => spec_prev_comment_doc(s@, idx as int, *lang) == Option::Some(v@),
            Option::None => spec_prev_comment_doc(s@, idx as int, *lang) is None,
        },
{
    let p = match prev_named_index(s, idx) {
        Some(p) => p,
        None => {
            return None;
        },
    };
    if !s[p].is_kind("comment") {
        return None;
    }
    match lang {
        Language::Python => Some(trim(&trim_start_matches(&s[p].text, "#"))),
        Language::Go => Some(trim(&trim_start_matches(&s[p].text, "//"))),
        _ => Some(
            trim(
                &trim_end_matches(
                    &trim_start_matches(&trim_start_matches(&s[p].text, "//"), "/*"),
                    "*/",
                ),
            ),
        ),
    }
}

/// Extracts the docstring of the declaration `s[idx]`.
pub fn docstring_of(s: &Vec<SynNode>, idx: usize, lang: &Language) -> (r: Option<String>)
    requires
        idx < s@.len(),
    ensures
        match r {
            Option::Some(v) => spec_docstring(s@, idx as int, *lang) == Option::Some(v@),
            Option::None => spec_docstring(s@, idx as int, *lang) is None,
        },
{
    match lang {
        Language::Python => {
            let n = &s[idx];
            let body = match n.child_by_field("body") {
                Some(b) => b,
                None => {
                    return None;
                },
            };
            let first = match first_named_child(body) {
                Some(f) => f,
                None => {
                    return None;
                },
            };
            if first.is_kind("expression_statement") {
                let inner = match first_named_child(first) {
                    Some(x) => x,
                    None => {
                        return None;
                    },
                };
                if inner.is_kind("string") {
                    let t = trim(&trim_in(&trim_in(&inner.text, "\""), "'"));
                    return Some(chars_to_string(&t));
                }
            }
            match prev_comment_doc(s, idx, lang) {
                Some(v) => Some(chars_to_string(&v)),
                None => None,
            }
        },
        Language::JavaScript | Language::TypeScript | Language::Java | Language::Cpp
            | Language::Php | Language::Go => {
            match prev_comment_doc(s, idx, lang) {
                Some(v) => Some(chars_to_string(&v)),
                None => None,
            }
        },
        Language::Rust => {
            let docs = rust_docs(s, idx);
            if docs.len() == 0 {
                None
            } else {
                let j = join_parts(&docs, "\n");
                Some(chars_to_string(&j))
            }
        },
        _ => None,
    }
}

} // verus!
