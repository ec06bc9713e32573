//! Export extraction: explicit export statements (TypeScript/JavaScript),
//! visibility modifiers (Rust), or the uppercase-name convention (Go).

use vstd::prelude::*;
use vstd::string::*;
use crate::lang::Language;
use crate::tree::{SynNode, spec_child_by_field};
use crate::text::chars_to_string;

verus! {

/// Whether the Unicode Uppercase property holds of `c`.
pub uninterp spec fn is_upper_of(c: char) -> bool;

/// Relies on `char::is_uppercase`: whether the character has the Unicode
/// Uppercase property, a function of the character alone.
#[verifier::external_body]
fn char_is_uppercase(c: char) -> (r: bool)
    ensures
        r == is_upper_of(c),
{
    c.is_uppercase()
}

/// The texts of all nodes of kind `k` in the subtree rooted at `n`,
/// in document order.
pub open spec fn spec_kind_texts_in(n: SynNode, k: Seq<char>) -> Seq<Seq<char>>
    decreases n,
{
    (if n.kind@ == k {
        seq![n.text@]
    } else {
        Seq::empty()
    }) + spec_kind_texts_under(n.children@, k)
}

/// The texts of all nodes of kind `k` in the subtrees of `s`.
pub open spec fn spec_kind_texts_under(s: Seq<SynNode>, k: Seq<char>) -> Seq<Seq<char>>
    decreases s,
{
    if s.len() == 0 {
        Seq::empty()
    } else {
        spec_kind_texts_under(s.subrange(0, s.len() - 1), k) + spec_kind_texts_in(
            s[s.len() - 1],
            k,
        )
    }
}

/// The export one direct child of the root contributes under Go's
/// uppercase-name convention.
pub open spec fn spec_go_export_of(c: SynNode) -> Seq<Seq<char>> {
    match spec_child_by_field(c, "name"@) {
        Option::Some(nm) => {
            if nm.text@.len() > 0 && is_upper_of(nm.text@[0]) {
                seq![nm.text@]
            } else {
                Seq::empty()
            }
        },
        Option::None => Seq::empty(),
    }
}

/// Go's exports: names of the root's direct children that start uppercase.
pub open spec fn spec_go_exports(s: Seq<SynNode>) -> Seq<Seq<char>>
    decreases s,
{
    if s.len() == 0 {
        Seq::empty()
    } else {
        spec_go_exports(s.subrange(0, s.len() - 1)) + spec_go_export_of(s[s.len() - 1])
    }
}

/// The exports of a file, by the language's convention.
pub open spec fn spec_exports(root: SynNode, lang: Language) -> Seq<Seq<char>> {
    match lang {
        Language::TypeScript | Language::JavaScript => spec_kind_texts_in(
            root,
            "export_statement"@,
        ),
        Language::Rust => spec_kind_texts_in(root, "visibility_modifier"@),
        Language::Go => spec_go_exports(root.children@),
        _ => Seq::empty(),
    }
}

/// Collects the texts of all nodes of kind `k` under `n` onto `out`.
fn collect_kind_texts(n: &SynNode, k: &str, out: &mut Vec<String>)
    ensures
        final(out).deep_view() == old(out).deep_view() + spec_kind_texts_in(*n, k@),
    decreases *n,
{
    let ghost base = old(out).deep_view();
    let ghost own: Seq<Seq<char>> = if n.kind@ == k@ {
        seq![n.text@]
    } else {
        Seq::empty()
    };
    if n.is_kind(k) {
        let ghost prev = out.deep_view();
        out.push(chars_to_string(&n.text));
        proof {
            assert(out.deep_view() =~= prev.push(n.text@));
            assert(out.deep_view() =~= base + own);
        }
    }
    let m = n.children.len();
    let mut i: usize = 0;
    while i < m
        invariant
            i <= m,
            m == n.children@.len(),
            out.deep_view() == base + own + spec_kind_texts_under(
                n.children@.subrange(0, i as int),
                k@,
            ),
        decreases m - i,
    {
        collect_kind_texts(&n.children[i], k, out);
        proof {
            let j = i as int;
            let pre = n.children@.subrange(0, j + 1);
            assert(pre.subrange(0, j) =~= n.children@.subrange(0, j));
            assert(pre[j] == n.children@[j]);
            assert(out.deep_view() =~= base + own + spec_kind_texts_under(pre, k@));
        }
        i = i + 1;
    }
    proof {
        assert(n.children@.subrange(0, m as int) =~= n.children@);
    }
}

/// Extracts Go's exports from the root's direct children.
fn extract_go_exports(root: &SynNode) -> (r: Vec<String>)
    ensures
        r.deep_view() == spec_go_exports(root.children@),
{
    let m = root.children.len();
    let mut out: Vec<String> = Vec::new();
    let mut i: usize = 0;
    while i < m
        invariant
            i <= m,
            m == root.children@.len(),
            out.deep_view() == spec_go_exports(root.children@.subrange(0, i as int)),
        decreases m - i,
    {
        let ghost prev = out.deep_view();
        match root.children[i].child_by_field("name") {
            Some(nm) => {
                if nm.text.len() > 0 && char_is_uppercase(nm.text[0]) {
                    out.push(chars_to_string(&nm.text));
                    proof {
                        assert(out.deep_view() =~= prev.push(nm.text@));
                    }
                }
            },
            None => {},
        }
        proof {
            let j = i as int;
            let pre = root.children@.subrange(0, j + 1);
            assert(pre.subrange(0, j) =~= root.children@.subrange(0, j));
            assert(pre[j] == root.children@[j]);
            assert(out.deep_view() =~= spec_go_exports(pre));
        }
        i = i + 1;
    }
    proof {
        assert(root.children@.subrange(0, m as int) =~= root.children@);
    }
    out
}

/// Extracts the export list of a file.
pub fn extract_exports(root: &SynNode, lang: &Language) -> (r: Vec<String>)
    ensures
        r.deep_view() == spec_exports(*root, *lang),
{
    match lang {
        Language::TypeScript | Language::JavaScript => {
            let mut out: Vec<String> = Vec::new();
            collect_kind_texts(root, "export_statement", &mut out);
            proof {
                assert(Seq::<Seq<char>>::empty() + spec_kind_texts_in(*root, "export_statement"@)
                    =~= spec_kind_texts_in(*root, "export_statement"@));
            }
            out
        },
        Language::Rust => {
            let mut out: Vec<String> = Vec::new();
            collect_kind_texts(root, "visibility_modifier", &mut out);
            proof {
                assert(Seq::<Seq<char>>::empty() + spec_kind_texts_in(
                    *root,
                    "visibility_modifier"@,
                ) =~= spec_kind_texts_in(*root, "visibility_modifier"@));
            }
            out
        },
        Language::Go => extract_go_exports(root),
        _ => Vec::new(),
    }
}

} // verus!
