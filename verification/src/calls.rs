//! Call-graph extraction: an independent pass that, for every
//! function-like declaration, walks its body and collects the callee name
//! of each call expression, keeping only the last dot-separated segment and
//! dropping duplicates.  The pass yields one name-to-call-list entry per
//! declaration; for duplicate names a later entry shadows an earlier one,
//! which mirrors the one-name-one-list shape of this pass.

use vstd::prelude::*;
use vstd::string::*;
use crate::lang::{Language, last_idx, rfind_from};
use crate::tree::{SynNode, spec_child_by_field, str_eq};
use crate::text::{copy_range, chars_to_string};
use crate::imports::chars_eq_str;

verus! {

/// One entry of the call map: a declaration name and the callee names its
/// body mentions.
pub struct CallsEntry {
    pub name: String,
    pub calls: Vec<String>,
}

/// Spec view of a `CallsEntry`.
#[verifier::ext_equal]
pub ghost struct CallsEntryV {
    pub name: Seq<char>,
    pub calls: Seq<Seq<char>>,
}

impl DeepView for CallsEntry {
    type V = CallsEntryV;

    open spec fn deep_view(&self) -> CallsEntryV {
        CallsEntryV { name: self.name@, calls: self.calls.deep_view() }
    }
}

/// The last dot-separated segment of `s`.
pub open spec fn spec_last_seg(s: Seq<char>) -> Seq<char> {
    s.subrange(last_idx(s, '.') + 1, s.len() as int)
}

/// Takes the last dot-separated segment of `v`.
fn last_seg(v: &Vec<char>) -> (r: Vec<char>)
    ensures
        r@ == spec_last_seg(v@),
{
    let n = v.len();
    proof {
        assert(v@.subrange(0, n as int) =~= v@);
    }
    match rfind_from(v, 0, '.') {
        Some(k) => copy_range(v, k + 1, n),
        None => copy_range(v, 0, n),
    }
}

/// The callee name a single node contributes: the last segment of the text
/// of its `function` field, when the node is a call expression and that
/// segment is non-empty.
pub open spec fn spec_own_calls(n: SynNode) -> Seq<Seq<char>> {
    if n.kind@ == "call_expression"@ || n.kind@ == "call"@ {
        match spec_child_by_field(n, "function"@) {
            Option::Some(f) => {
                if spec_last_seg(f.text@).len() > 0 {
                    seq![spec_last_seg(f.text@)]
                } else {
                    Seq::empty()
                }
            },
            Option::None => Seq::empty(),
        }
    } else {
        Seq::empty()
    }
}

/// The callee names mentioned in the subtree of `n`, in the order the
/// collector visits them: a node first, then its children's subtrees from
/// the last child to the first.
pub open spec fn spec_calls_rtl(n: SynNode) -> Seq<Seq<char>>
    decreases n,
{
    spec_own_calls(n) + spec_calls_rtl_rev(n.children@)
}

/// The callee names of the subtrees of `s`, visited from the last to the
/// first element.
pub open spec fn spec_calls_rtl_rev(s: Seq<SynNode>) -> Seq<Seq<char>>
    decreases s,
{
    if s.len() == 0 {
        Seq::empty()
    } else {
        spec_calls_rtl_rev(s.subrange(1, s.len() as int)) + spec_calls_rtl(s[0])
    }
}

/// Appends `x` to `acc` unless it is already present.
pub open spec fn dedup_push(acc: Seq<Seq<char>>, x: Seq<char>) -> Seq<Seq<char>> {
    if acc.contains(x) {
        acc
    } else {
        acc.push(x)
    }
}

/// Folds `dedup_push` over `s`, left to right.
pub open spec fn spec_merge_names(acc: Seq<Seq<char>>, s: Seq<Seq<char>>) -> Seq<Seq<char>>
    decreases s.len(),
{
    if s.len() == 0 {
        acc
    } else {
        spec_merge_names(dedup_push(acc, s[0]), s.subrange(1, s.len() as int))
    }
}

/// Merging a concatenation merges its parts in turn.
pub proof fn lemma_merge_app(acc: Seq<Seq<char>>, x: Seq<Seq<char>>, y: Seq<Seq<char>>)
    ensures
        spec_merge_names(acc, x + y) == spec_merge_names(spec_merge_names(acc, x), y),
    decreases x.len(),
{
    if x.len() == 0 {
        assert(x + y =~= y);
    } else {
        assert((x + y)[0] == x[0]);
        assert((x + y).subrange(1, (x + y).len() as int) =~= x.subrange(1, x.len() as int) + y);
        lemma_merge_app(dedup_push(acc, x[0]), x.subrange(1, x.len() as int), y);
    }
}

/// Whether the character view of `x` occurs in `acc`.
fn contains_name(acc: &Vec<String>, x: &Vec<char>) -> (r: bool)
    ensures
        r == acc.deep_view().contains(x@),
{
    let n = acc.len();
    let mut i: usize = 0;
    while i < n
        invariant
            i <= n,
            n == acc@.len(),
            forall|j: int| 0 <= j < i ==> acc.deep_view()[j] != x@,
        decreases n - i,
    {
        if chars_eq_str(x, acc[i].as_str()) {
            proof {
                assert(acc.deep_view()[i as int] == x@);
            }
            return true;
        }
        proof {
            assert(acc.deep_view()[i as int] == acc@[i as int]@);
        }
        i = i + 1;
    }
    proof {
        if acc.deep_view().contains(x@) {
            let w = choose|w: int| 0 <= w < acc.deep_view().len() && acc.deep_view()[w] == x@;
            assert(acc.deep_view()[w] != x@);
        }
    }
    false
}

/// Collects the callee names of the subtree of `n` onto `acc`, first
/// occurrence kept, later duplicates dropped.
fn collect_calls(n: &SynNode, acc: &mut Vec<String>)
    ensures
        final(acc).deep_view() == spec_merge_names(old(acc).deep_view(), spec_calls_rtl(*n)),
    decreases *n,
{
    let ghost base = old(acc).deep_view();
    let ghost own = spec_own_calls(*n);
    if n.is_kind("call_expression") || n.is_kind("call") {
        match n.child_by_field("function") {
            Some(f) => {
                let seg = last_seg(&f.text);
                if seg.len() > 0 {
                    let ghost prev = acc.deep_view();
                    if !contains_name(acc, &seg) {
                        acc.push(chars_to_string(&seg));
                        proof {
                            assert(acc.deep_view() =~= prev.push(seg@));
                        }
                    }
                    proof {
                        assert(acc.deep_view() == dedup_push(base, seg@));
                    }
                }
            },
            None => {},
        }
    }
    proof {
        if own.len() > 0 {
            assert(own =~= seq![own[0]]);
            assert(seq![own[0]].subrange(1, 1) =~= Seq::<Seq<char>>::empty());
            assert(spec_merge_names(dedup_push(base, own[0]), Seq::empty()) == dedup_push(
                base,
                own[0],
            ));
            assert(spec_merge_names(base, own) == dedup_push(base, own[0]));
        }
        assert(acc.deep_view() == spec_merge_names(base, own));
    }
    let ghost base2 = acc.deep_view();
    let m = n.children.len();
    let mut i: usize = m;
    proof {
        assert(n.children@.skip(m as int) =~= Seq::<SynNode>::empty());
        assert(spec_calls_rtl_rev(Seq::<SynNode>::empty()) == Seq::<Seq<char>>::empty());
        assert(spec_merge_names(base2, Seq::empty()) == base2);
    }
    while i > 0
        invariant
            i <= m,
            m == n.children@.len(),
            acc.deep_view() == spec_merge_names(
                base2,
                spec_calls_rtl_rev(n.children@.skip(i as int)),
            ),
        decreases i,
    {
        i = i - 1;
        collect_calls(&n.children[i], acc);
        proof {
            let s = n.children@;
            let k = i as int;
            assert(s.skip(k).subrange(1, s.skip(k).len() as int) =~= s.skip(k + 1));
            assert(s.skip(k)[0] == s[k]);
            assert(spec_calls_rtl_rev(s.skip(k)) == spec_calls_rtl_rev(s.skip(k + 1))
                + spec_calls_rtl(s[k]));
            lemma_merge_app(base2, spec_calls_rtl_rev(s.skip(k + 1)), spec_calls_rtl(s[k]));
        }
    }
    proof {
        let s = n.children@;
        assert(s.skip(0) =~= s);
        lemma_merge_app(base, own, spec_calls_rtl_rev(s));
        assert(own + spec_calls_rtl_rev(s) == spec_calls_rtl(*n));
    }
}

/// The deduplicated callee names of one declaration body.
pub open spec fn spec_calls_of(body: SynNode) -> Seq<Seq<char>> {
    spec_merge_names(Seq::empty(), spec_calls_rtl(body))
}

/// Collects the callee names mentioned in one declaration body.
pub fn calls_in_body(body: &SynNode) -> (r: Vec<String>)
    ensures
        r.deep_view() == spec_calls_of(*body),
{
    let mut acc: Vec<String> = Vec::new();
    proof {
        assert(acc.deep_view() =~= Seq::<Seq<char>>::empty());
    }
    collect_calls(body, &mut acc);
    acc
}

/// The (name, body) pair of a declaration whose name child has kind
/// `name_kind` and whose body child has kind `body_kind`.
pub open spec fn spec_name_body(n: SynNode, name_kind: Seq<char>, body_kind: Seq<char>) -> Option<
    (Seq<char>, SynNode),
> {
    match (spec_child_by_field(n, "name"@), spec_child_by_field(n, "body"@)) {
        (Option::Some(nm), Option::Some(b)) => {
            if nm.kind@ == name_kind && b.kind@ == body_kind {
                Option::Some((nm.text@, b))
            } else {
                Option::None
            }
        },
        _ => Option::None,
    }
}

/// The function-like declaration pattern of each language for the
/// call-graph pass.
pub open spec fn spec_fn_def(n: SynNode, lang: Language) -> Option<(Seq<char>, SynNode)> {
    match lang {
        Language::Python => {
            if n.kind@ == "function_definition"@ {
                spec_name_body(n, "identifier"@, "block"@)
            } else if n.kind@ == "decorated_definition"@ {
                match spec_child_by_field(n, "definition"@) {
                    Option::Some(d) => {
                        if d.kind@ == "function_definition"@ {
                            spec_name_body(d, "identifier"@, "block"@)
                        } else {
                            Option::None
                        }
                    },
                    Option::None => Option::None,
                }
            } else {
                Option::None
            }
        },
        Language::TypeScript | Language::JavaScript => {
            if n.kind@ == "function_declaration"@ {
                spec_name_body(n, "identifier"@, "statement_block"@)
            } else if n.kind@ == "method_definition"@ {
                spec_name_body(n, "property_identifier"@, "statement_block"@)
            } else {
                Option::None
            }
        },
        Language::Rust => {
            if n.kind@ == "function_item"@ {
                spec_name_body(n, "identifier"@, "block"@)
            } else {
                Option::None
            }
        },
        Language::Go => {
            if n.kind@ == "function_declaration"@ {
                spec_name_body(n, "identifier"@, "block"@)
            } else if n.kind@ == "method_declaration"@ {
                spec_name_body(n, "field_identifier"@, "block"@)
            } else {
                Option::None
            }
        },
        Language::Java => {
            if n.kind@ == "method_declaration"@ {
                spec_name_body(n, "identifier"@, "block"@)
            } else {
                Option::None
            }
        },
        _ => Option::None,
    }
}

/// The call-map entry `n` contributes: its name and body calls, when it is
/// a function-like declaration with a non-empty name and at least one call.
pub open spec fn spec_own_entry(n: SynNode, lang: Language) -> Seq<CallsEntryV> {
    match spec_fn_def(n, lang) {
        Option::Some((nm, body)) => {
            if nm.len() > 0 && spec_calls_of(body).len() > 0 {
                seq![CallsEntryV { name: nm, calls: spec_calls_of(body) }]
            } else {
                Seq::empty()
            }
        },
        Option::None => Seq::empty(),
    }
}

/// All call-map entries in the subtree of `n`, in document order.
pub open spec fn spec_call_entries_in(n: SynNode, lang: Language) -> Seq<CallsEntryV>
    decreases n,
{
    spec_own_entry(n, lang) + spec_call_entries_under(n.children@, lang)
}

/// All call-map entries in the subtrees of `s`.
pub open spec fn spec_call_entries_under(s: Seq<SynNode>, lang: Language) -> Seq<CallsEntryV>
    decreases s,
{
    if s.len() == 0 {
        Seq::empty()
    } else {
        spec_call_entries_under(s.subrange(0, s.len() - 1), lang) + spec_call_entries_in(
            s[s.len() - 1],
            lang,
        )
    }
}

/// Matches the declaration pattern on `n`, yielding its name text and body.
fn fn_def<'a>(n: &'a SynNode, lang: &Language) -> (r: Option<(Vec<char>, &'a SynNode)>)
    ensures
        match r {
            Option::Some(p) => spec_fn_def(*n, *lang) == Option::Some((p.0@, *p.1)),
            Option::None => spec_fn_def(*n, *lang) is None,
        },
{
    match lang {
        Language::Python => {
            if n.is_kind("function_definition") {
                name_body(n, "identifier", "block")
            } else if n.is_kind("decorated_definition") {
                match n.child_by_field("definition") {
                    Some(d) => {
                        if d.is_kind("function_definition") {
                            name_body(d, "identifier", "block")
                        } else {
                            None
                        }
                    },
                    None => None,
                }
            } else {
                None
            }
        },
        Language::TypeScript | Language::JavaScript => {
            if n.is_kind("function_declaration") {
                name_body(n, "identifier", "statement_block")
            } else if n.is_kind("method_definition") {
                name_body(n, "property_identifier", "statement_block")
            } else {
                None
            }
        },
        Language::Rust => {
            if n.is_kind("function_item") {
                name_body(n, "identifier", "block")
            } else {
                None
            }
        },
        Language::Go => {
            if n.is_kind("function_declaration") {
                name_body(n, "identifier", "block")
            } else if n.is_kind("method_declaration") {
                name_body(n, "field_identifier", "block")
            } else {
                None
            }
        },
        Language::Java => {
            if n.is_kind("method_declaration") {
                name_body(n, "identifier", "block")
            } else {
                None
            }
        },
        _ => None,
    }
}

/// Matches the (name, body) field pattern on `n`.
fn name_body<'a>(n: &'a SynNode, name_kind: &str, body_kind: &str) -> (r: Option<(
    Vec<char>,
    &'a SynNode,
)>)
    ensures
        match r {
            Option::Some(p) => spec_name_body(*n, name_kind@, body_kind@) == Option::Some((
                p.0@,
                *p.1,
            )),
            Option::None => spec_name_body(*n, name_kind@, body_kind@) is None,
        },
{
    let nm = match n.child_by_field("name") {
        Some(nm) => nm,
        None => {
            return None;
        },
    };
    let b = match n.child_by_field("body") {
        Some(b) => b,
        None => {
            return None;
        },
    };
    if nm.is_kind(name_kind) && b.is_kind(body_kind) {
        Some((copy_range(&nm.text, 0, nm.text.len()), b))
    } else {
        None
    }
}

/// Collects the call-map entries of the subtree of `n` onto `out`.
fn collect_entries(n: &SynNode, lang: &Language, out: &mut Vec<CallsEntry>)
    ensures
        final(out).deep_view() == old(out).deep_view() + spec_call_entries_in(*n, *lang),
    decreases *n,
{
    let ghost base = old(out).deep_view();
    let ghost own = spec_own_entry(*n, *lang);
    match fn_def(n, lang) {
        Some((nm, body)) => {
            if nm.len() > 0 {
                let calls = calls_in_body(body);
                if calls.len() > 0 {
                    let ghost prev = out.deep_view();
                    out.push(CallsEntry { name: chars_to_string(&nm), calls });
                    proof {
                        assert(out.deep_view() =~= prev.push(
                            CallsEntryV { name: nm@, calls: spec_calls_of(*body) },
                        ));
                    }
                }
            }
        },
        None => {},
    }
    proof {
        assert(out.deep_view() =~= base + own);
    }
    let m = n.children.len();
    let mut i: usize = 0;
    while i < m
        invariant
            i <= m,
            m == n.children@.len(),
            out.deep_view() == base + own + spec_call_entries_under(
                n.children@.subrange(0, i as int),
                *lang,
            ),
        decreases m - i,
    {
        collect_entries(&n.children[i], lang, out);
        proof {
            let j = i as int;
            let pre = n.children@.subrange(0, j + 1);
            assert(pre.subrange(0, j) =~= n.children@.subrange(0, j));
            assert(pre[j] == n.children@[j]);
            assert(out.deep_view() =~= base + own + spec_call_entries_under(pre, *lang));
        }
        i = i + 1;
    }
    proof {
        assert(n.children@.subrange(0, m as int) =~= n.children@);
    }
}

/// Extracts the call map of a file: one entry per function-like
/// declaration with calls in its body, in document order.
pub fn extract_call_graph(root: &SynNode, lang: &Language) -> (r: Vec<CallsEntry>)
    ensures
        r.deep_view() == spec_call_entries_in(*root, *lang),
{
    let mut out: Vec<CallsEntry> = Vec::new();
    collect_entries(root, lang, &mut out);
    proof {
        assert(Seq::<CallsEntryV>::empty() + spec_call_entries_in(*root, *lang)
            =~= spec_call_entries_in(*root, *lang));
    }
    out
}

/// The call list the map assigns to `name`: the latest entry wins.
pub open spec fn spec_lookup_calls(es: Seq<CallsEntryV>, name: Seq<char>) -> Option<
    Seq<Seq<char>>,
>
    decreases es.len(),
{
    if es.len() == 0 {
        Option::None
    } else if es[es.len() - 1].name == name {
        Option::Some(es[es.len() - 1].calls)
    } else {
        spec_lookup_calls(es.subrange(0, es.len() - 1), name)
    }
}

/// Looks `name` up in the call map; the latest entry wins.
pub fn lookup_calls(es: &Vec<CallsEntry>, name: &str) -> (r: Option<Vec<String>>)
    ensures
        match r {
            Option::Some(cs) => spec_lookup_calls(es.deep_view(), name@) == Option::Some(
                cs.deep_view(),
            ),
            Option::None => spec_lookup_calls(es.deep_view(), name@) is None,
        },
{
    let n = es.len();
    let mut i: usize = n;
    proof {
        assert(es.deep_view().subrange(0, n as int) =~= es.deep_view());
    }
    while i > 0
        invariant
            i <= n,
            n == es@.len(),
            spec_lookup_calls(es.deep_view(), name@) == spec_lookup_calls(
                es.deep_view().subrange(0, i as int),
                name@,
            ),
        decreases i,
    {
        i = i - 1;
        proof {
            assert(es.deep_view().subrange(0, i + 1)[i as int] == es.deep_view()[i as int]);
            assert(es.deep_view()[i as int] == es@[i as int].deep_view());
        }
        if str_eq(es[i].name.as_str(), name) {
            let copies = copy_strings(&es[i].calls);
            proof {
                assert(spec_lookup_calls(es.deep_view().subrange(0, i + 1), name@)
                    == Option::Some(es@[i as int].calls.deep_view()));
            }
            return Some(copies);
        }
        proof {
            assert(es.deep_view().subrange(0, i + 1).subrange(0, i as int) =~= es.deep_view()
                .subrange(0, i as int));
        }
    }
    proof {
        assert(es.deep_view().subrange(0, 0) =~= Seq::<CallsEntryV>::empty());
    }
    None
}

/// Copies a vector of strings.
pub fn copy_strings(v: &Vec<String>) -> (r: Vec<String>)
    ensures
        r.deep_view() == v.deep_view(),
{
    let n = v.len();
    let mut r: Vec<String> = Vec::new();
    while r.len() < n
        invariant
            r@.len() <= n,
            n == v@.len(),
            r.deep_view() == v.deep_view().subrange(0, r@.len() as int),
        decreases n - r@.len(),
    {
        let i = r.len();
        r.push(v[i].clone());
        proof {
            assert(r.deep_view() =~~= v.deep_view().subrange(0, i + 1));
        }
    }
    proof {
        assert(v.deep_view().subrange(0, n as int) =~= v.deep_view());
    }
    r
}

} // verus!
