//! Per-symbol enrichment: signature, docstring, parameters, return type,
//! visibility, decorators, base types and preview.  Each lookup is
//! best-effort: absence yields an empty value, never an error.

use vstd::prelude::*;
use vstd::string::*;
use crate::lang::Language;
use crate::tree::{SynNode, spec_child_by_field};
use crate::text::{
    spec_trim, spec_trim_end, spec_trim_start_matches, spec_trim_end_matches, spec_trim_each,
    spec_keep_nonempty, spec_split_char, spec_replace, spec_starts_with, spec_ends_with,
    first_idx, lemma_first_idx, trim, trim_start_matches, trim_end_matches, trim_end, trim_each,
    keep_nonempty, split_char, replace_str, starts_with, ends_with, find_char, copy_range,
    append_chars, chars_to_string, to_strings,
};

verus! {

/// How many bytes the UTF-8 encoding of `c` takes.
pub open spec fn len8(c: char) -> int {
    if (c as u32) < 0x80 {
        1
    } else if (c as u32) < 0x800 {
        2
    } else if (c as u32) < 0x10000 {
        3
    } else {
        4
    }
}

/// The UTF-8 length of `c`.
fn len8_c(c: char) -> (r: usize)
    ensures
        r == len8(c),
{
    let u = c as u32;
    if u < 0x80 {
        1
    } else if u < 0x800 {
        2
    } else if u < 0x10000 {
        3
    } else {
        4
    }
}

/// The longest prefix of `s` whose characters all start before byte `k`,
/// counting bytes of the UTF-8 encoding: a byte window rounded up to a
/// character boundary.
pub open spec fn spec_take_bytes(s: Seq<char>, k: int) -> Seq<char>
    decreases s.len(),
{
    if s.len() == 0 || k <= 0 {
        Seq::empty()
    } else {
        seq![s[0]] + spec_take_bytes(s.drop_first(), k - len8(s[0]))
    }
}

/// Takes the prefix of `v` filling a byte window of `k` bytes, rounded up
/// to a character boundary.
pub fn take_bytes(v: &Vec<char>, k: usize) -> (r: Vec<char>)
    ensures
        r@ == spec_take_bytes(v@, k as int),
    decreases v@.len(),
{
    if v.len() == 0 || k == 0 {
        Vec::new()
    } else {
        let l = len8_c(v[0]);
        let rest_src = copy_range(v, 1, v.len());
        proof {
            assert(rest_src@ =~= v@.drop_first());
        }
        let rest = take_bytes(&rest_src, if k > l {
            k - l
        } else {
            0
        });
        let mut r: Vec<char> = Vec::new();
        r.push(v[0]);
        append_chars(&mut r, &rest);
        proof {
            if k <= l {
                assert(spec_take_bytes(v@.drop_first(), k - len8(v@[0])) == Seq::<char>::empty());
            }
            assert(r@ =~= seq![v@[0]] + rest@);
        }
        r
    }
}

/// The first line of `s`: the part before the first newline, with a
/// carriage return stripped if the newline followed one.
pub open spec fn spec_first_line(s: Seq<char>) -> Seq<char> {
    let i = first_idx(s, '\n');
    if i < 0 {
        s
    } else {
        let line = s.take(i);
        if line.len() > 0 && line.last() == '\r' {
            line.drop_last()
        } else {
            line
        }
    }
}

/// Takes the first line of `v`.
pub fn first_line(v: &Vec<char>) -> (r: Vec<char>)
    ensures
        r@ == spec_first_line(v@),
{
    proof {
        lemma_first_idx(v@, '\n');
    }
    match find_char(v, '\n') {
        None => copy_range(v, 0, v.len()),
        Some(i) => {
            if i > 0 && v[i - 1] == '\r' {
                proof {
                    assert(v@.take(first_idx(v@, '\n')).last() == v@[i - 1]);
                    assert(v@.subrange(0, i - 1) =~= v@.take(first_idx(v@, '\n')).drop_last());
                }
                copy_range(v, 0, i - 1)
            } else {
                proof {
                    if i > 0 {
                        assert(v@.take(first_idx(v@, '\n')).last() == v@[i - 1]);
                    }
                }
                copy_range(v, 0, i)
            }
        },
    }
}

/// The content preview of a node: the first line of a 120-byte window from
/// its start, truncated at a character boundary.
pub open spec fn spec_preview(n: SynNode) -> Seq<char> {
    let window = if n.end_byte - n.start_byte < 120 {
        n.end_byte - n.start_byte
    } else {
        120
    };
    spec_first_line(spec_take_bytes(n.text@, window))
}

/// Builds the content preview of a node.
pub fn preview_of(n: &SynNode) -> (r: Vec<char>)
    ensures
        r@ == spec_preview(*n),
{
    let window: usize = if n.end_byte < n.start_byte {
        0
    } else if n.end_byte - n.start_byte < 120 {
        n.end_byte - n.start_byte
    } else {
        120
    };
    proof {
        if n.end_byte < n.start_byte {
            assert(spec_take_bytes(n.text@, n.end_byte - n.start_byte) == Seq::<char>::empty());
            assert(spec_take_bytes(n.text@, 0) == Seq::<char>::empty());
        }
    }
    let w = take_bytes(&n.text, window);
    first_line(&w)
}

/// The signature of a declaration: its text up to the start of its `body`
/// child (or a 300-byte fallback window), with trailing whitespace, braces
/// and colons trimmed; empty means none.
pub open spec fn spec_signature(n: SynNode) -> Option<Seq<char>> {
    let end = match spec_child_by_field(n, "body"@) {
        Option::Some(b) => b.start_byte as int,
        Option::None => if n.end_byte - n.start_byte < 300 {
            n.end_byte as int
        } else {
            n.start_byte + 300
        },
    };
    let sig = spec_trim(
        spec_trim_end_matches(
            spec_trim_end_matches(spec_trim_end(spec_take_bytes(n.text@, end - n.start_byte)), "{"@),
            ":"@,
        ),
    );
    if sig.len() == 0 {
        Option::None
    } else {
        Option::Some(sig)
    }
}

/// Builds the signature of a declaration.
pub fn signature_of(n: &SynNode) -> (r: Option<Vec<char>>)
    ensures
        match r {
            Option::Some(v) => spec_signature(*n) == Option::Some(v@),
            Option::None => spec_signature(*n) is None,
        },
{
    let end: usize = match n.child_by_field("body") {
        Some(b) => b.start_byte,
        None => {
            if n.end_byte < n.start_byte {
                n.end_byte
            } else if n.end_byte - n.start_byte < 300 {
                n.end_byte
            } else {
                if n.start_byte <= usize::MAX - 300 {
                    n.start_byte + 300
                } else {
                    usize::MAX
                }
            }
        },
    };
    let window: usize = if end < n.start_byte {
        0
    } else {
        end - n.start_byte
    };
    let ghost spec_end: int = match spec_child_by_field(*n, "body"@) {
        Option::Some(b) => b.start_byte as int,
        Option::None => if n.end_byte - n.start_byte < 300 {
            n.end_byte as int
        } else {
            n.start_byte + 300
        },
    };
    proof {
        if window as int != spec_end - n.start_byte {
            assert(spec_end - n.start_byte <= 0);
            assert(spec_take_bytes(n.text@, spec_end - n.start_byte) == Seq::<char>::empty());
            assert(spec_take_bytes(n.text@, 0) == Seq::<char>::empty());
        }
    }
    let w = take_bytes(&n.text, window);
    let sig = trim(&trim_end_matches(&trim_end_matches(&trim_end(&w), "{"), ":"));
    if sig.len() == 0 {
        None
    } else {
        Some(sig)
    }
}

/// Index of the first named node in `s`, or -1.
pub open spec fn first_named_idx(s: Seq<SynNode>) -> int
    decreases s.len(),
{
    if s.len() == 0 {
        -1
    } else if s[0].named {
        0
    } else {
        let r = first_named_idx(s.drop_first());
        if r == -1 {
            -1
        } else {
            r + 1
        }
    }
}

/// Characterization of `first_named_idx`.
pub proof fn lemma_first_named_idx(s: Seq<SynNode>)
    ensures
        first_named_idx(s) >= -1,
        first_named_idx(s) == -1 ==> forall|j: int| 0 <= j < s.len() ==> !(#[trigger] s[j]).named,
        first_named_idx(s) >= 0 ==> {
            let i = first_named_idx(s);
            &&& 0 <= i < s.len()
            &&& s[i].named
            &&& forall|j: int| 0 <= j < i ==> !(#[trigger] s[j]).named
        },
    decreases s.len(),
{
    if s.len() > 0 && !s[0].named {
        lemma_first_named_idx(s.drop_first());
        let t = s.drop_first();
        let r = first_named_idx(t);
        assert(forall|j: int| 0 <= j < t.len() ==> #[trigger] t[j] == s[j + 1]);
        if r == -1 {
            assert forall|j: int| 0 <= j < s.len() implies !(#[trigger] s[j]).named by {
                if j > 0 {
                    assert(s[j] == t[j - 1]);
                }
            }
        } else {
            assert(s[r + 1] == t[r]);
            assert forall|j: int| 0 <= j < r + 1 implies !(#[trigger] s[j]).named by {
                if j > 0 {
                    assert(s[j] == t[j - 1]);
                }
            }
        }
    }
}

/// The first named child of `n`, if any.
pub open spec fn spec_first_named_child(n: SynNode) -> Option<SynNode> {
    if first_named_idx(n.children@) == -1 {
        Option::None
    } else {
        Option::Some(n.children@[first_named_idx(n.children@)])
    }
}

/// Finds the first named child of `n`.
pub fn first_named_child(n: &SynNode) -> (r: Option<&SynNode>)
    ensures
        match r {
            Option::Some(c) => spec_first_named_child(*n) == Option::Some(*c),
            Option::None => spec_first_named_child(*n) is None,
        },
{
    proof {
        lemma_first_named_idx(n.children@);
    }
    let m = n.children.len();
    let mut i: usize = 0;
    while i < m
        invariant
            i <= m,
            m == n.children@.len(),
            forall|j: int| 0 <= j < i ==> !(#[trigger] n.children@[j]).named,
        decreases m - i,
    {
        if n.children[i].named {
            proof {
                let k = first_named_idx(n.children@);
                if k < i {
                    assert(!n.children@[k].named);
                }
                if k > i {
                    assert(!n.children@[i as int].named);
                }
            }
            return Some(&n.children[i]);
        }
        i = i + 1;
    }
    None
}

/// Index of the largest named node strictly before `idx`, or -1.
pub open spec fn prev_named_idx(s: Seq<SynNode>, idx: int) -> int
    decreases idx,
{
    if idx <= 0 {
        -1
    } else if s[idx - 1].named {
        idx - 1
    } else {
        prev_named_idx(s, idx - 1)
    }
}

/// Finds the index of the previous named sibling of `s[idx]`.
pub fn prev_named_index(s: &Vec<SynNode>, idx: usize) -> (r: Option<usize>)
    requires
        idx <= s@.len(),
    ensures
        match r {
            Option::Some(p) => p < idx && prev_named_idx(s@, idx as int) == p,
            Option::None => prev_named_idx(s@, idx as int) == -1,
        },
{
    let mut i: usize = idx;
    while i > 0
        invariant
            i <= idx <= s@.len(),
            prev_named_idx(s@, idx as int) == prev_named_idx(s@, i as int),
        decreases i,
    {
        i = i - 1;
        if s[i].named {
            return Some(i);
        }
    }
    None
}

/// Index of the first node in `s` whose kind is `k1` or `k2`, or -1.
pub open spec fn first_kind2_idx(s: Seq<SynNode>, k1: Seq<char>, k2: Seq<char>) -> int
    decreases s.len(),
{
    if s.len() == 0 {
        -1
    } else if s[0].kind@ == k1 || s[0].kind@ == k2 {
        0
    } else {
        let r = first_kind2_idx(s.drop_first(), k1, k2);
        if r == -1 {
            -1
        } else {
            r + 1
        }
    }
}

/// Characterization of `first_kind2_idx`.
pub proof fn lemma_first_kind2_idx(s: Seq<SynNode>, k1: Seq<char>, k2: Seq<char>)
    ensures
        first_kind2_idx(s, k1, k2) >= -1,
        first_kind2_idx(s, k1, k2) == -1 ==> forall|j: int|
            0 <= j < s.len() ==> (#[trigger] s[j]).kind@ != k1 && s[j].kind@ != k2,
        first_kind2_idx(s, k1, k2) >= 0 ==> {
            let i = first_kind2_idx(s, k1, k2);
            &&& 0 <= i < s.len()
            &&& (s[i].kind@ == k1 || s[i].kind@ == k2)
            &&& forall|j: int| 0 <= j < i ==> (#[trigger] s[j]).kind@ != k1 && s[j].kind@ != k2
        },
    decreases s.len(),
{
    if s.len() > 0 && !(s[0].kind@ == k1 || s[0].kind@ == k2) {
        lemma_first_kind2_idx(s.drop_first(), k1, k2);
        let t = s.drop_first();
        let r = first_kind2_idx(t, k1, k2);
        assert(forall|j: int| 0 <= j < t.len() ==> #[trigger] t[j] == s[j + 1]);
        if r == -1 {
            assert forall|j: int|
                0 <= j < s.len() implies (#[trigger] s[j]).kind@ != k1 && s[j].kind@ != k2 by {
                if j > 0 {
                    assert(s[j] == t[j - 1]);
                }
            }
        } else {
            assert(s[r + 1] == t[r]);
            assert forall|j: int|
                0 <= j < r + 1 implies (#[trigger] s[j]).kind@ != k1 && s[j].kind@ != k2 by {
                if j > 0 {
                    assert(s[j] == t[j - 1]);
                }
            }
        }
    }
}

/// The first child of `n` of kind `k1` or `k2`, if any.
pub open spec fn spec_child_of_kind2(n: SynNode, k1: Seq<char>, k2: Seq<char>) -> Option<SynNode> {
    if first_kind2_idx(n.children@, k1, k2) == -1 {
        Option::None
    } else {
        Option::Some(n.children@[first_kind2_idx(n.children@, k1, k2)])
    }
}

/// Finds the first child of `n` of kind `k1` or `k2`.
pub fn child_of_kind2<'a>(n: &'a SynNode, k1: &str, k2: &str) -> (r: Option<&'a SynNode>)
    ensures
        match r {
            Option::Some(c) => spec_child_of_kind2(*n, k1@, k2@) == Option::Some(*c),
            Option::None => spec_child_of_kind2(*n, k1@, k2@) is None,
        },
{
    proof {
        lemma_first_kind2_idx(n.children@, k1@, k2@);
    }
    let m = n.children.len();
    let mut i: usize = 0;
    while i < m
        invariant
            i <= m,
            m == n.children@.len(),
            forall|j: int|
                0 <= j < i ==> (#[trigger] n.children@[j]).kind@ != k1@ && n.children@[j].kind@
                    != k2@,
        decreases m - i,
    {
        if n.children[i].is_kind(k1) || n.children[i].is_kind(k2) {
            proof {
                let k = first_kind2_idx(n.children@, k1@, k2@);
                if k < i {
                    assert(!(n.children@[k].kind@ == k1@ || n.children@[k].kind@ == k2@));
                }
                if k > i {
                    assert(!(n.children@[i as int].kind@ == k1@ || n.children@[i as int].kind@
                        == k2@));
                }
            }
            return Some(&n.children[i]);
        }
        i = i + 1;
    }
    None
}

/// The return type of a declaration: the text of its `return_type` or
/// `result` field, with leading arrows and colons trimmed.
pub open spec fn spec_return_type(n: SynNode) -> Option<Seq<char>> {
    let f = match spec_child_by_field(n, "return_type"@) {
        Option::Some(t) => Option::Some(t),
        Option::None => spec_child_by_field(n, "result"@),
    };
    match f {
        Option::Some(t) => Option::Some(
            spec_trim(spec_trim_start_matches(spec_trim_start_matches(t.text@, "->"@), ":"@)),
        ),
        Option::None => Option::None,
    }
}

/// Extracts the return type of a declaration.
pub fn return_type_of(n: &SynNode) -> (r: Option<Vec<char>>)
    ensures
        match r {
            Option::Some(v) => spec_return_type(*n) == Option::Some(v@),
            Option::None => spec_return_type(*n) is None,
        },
{
    let t = match n.child_by_field("return_type") {
        Some(t) => t,
        None => {
            match n.child_by_field("result") {
                Some(t) => t,
                None => {
                    return None;
                },
            }
        },
    };
    Some(trim(&trim_start_matches(&trim_start_matches(&t.text, "->"), ":")))
}

/// The decorators of a node: the trimmed texts of its `decorator` children.
pub open spec fn spec_decorators(s: Seq<SynNode>) -> Seq<Seq<char>>
    decreases s,
{
    if s.len() == 0 {
        Seq::empty()
    } else {
        spec_decorators(s.subrange(0, s.len() - 1)) + if s[s.len() - 1].kind@ == "decorator"@ {
            seq![spec_trim(s[s.len() - 1].text@)]
        } else {
            Seq::empty()
        }
    }
}

/// The name of one parameter node: its `name` field, else its `pattern`
/// field, else its own text.
pub open spec fn spec_param_name(c: SynNode) -> Seq<char> {
    match spec_child_by_field(c, "name"@) {
        Option::Some(nm) => nm.text@,
        Option::None => match spec_child_by_field(c, "pattern"@) {
            Option::Some(p) => p.text@,
            Option::None => c.text@,
        },
    }
}

/// The default value of one parameter node: its `value` field, else its
/// `default_value` field.
pub open spec fn spec_param_default(c: SynNode) -> Option<Seq<char>> {
    match spec_child_by_field(c, "value"@) {
        Option::Some(v) => Option::Some(v.text@),
        Option::None => match spec_child_by_field(c, "default_value"@) {
            Option::Some(d) => Option::Some(d.text@),
            Option::None => Option::None,
        },
    }
}

/// What one child of the parameter list contributes: one parameter when it
/// is named and not an implicit receiver.
pub open spec fn spec_param_contrib(c: SynNode) -> Seq<crate::facts::ParamV> {
    if !c.named {
        Seq::empty()
    } else {
        let name = spec_param_name(c);
        if name.len() == 0 || name == "self"@ || name == "cls"@ {
            Seq::empty()
        } else {
            seq![
                crate::facts::ParamV {
                    name: name,
                    type_annotation: match spec_child_by_field(c, "type"@) {
                        Option::Some(t) => Option::Some(t.text@),
                        Option::None => Option::None,
                    },
                    default: spec_param_default(c),
                },
            ]
        }
    }
}

/// The parameters contributed by the children prefix of a parameter list.
pub open spec fn spec_params_under(s: Seq<SynNode>) -> Seq<crate::facts::ParamV>
    decreases s,
{
    if s.len() == 0 {
        Seq::empty()
    } else {
        spec_params_under(s.subrange(0, s.len() - 1)) + spec_param_contrib(s[s.len() - 1])
    }
}

/// The parameter list of a declaration: from its `parameters` or
/// `formal_parameters` field, implicit receivers excluded.
pub open spec fn spec_params(n: SynNode) -> Seq<crate::facts::ParamV> {
    let pn = match spec_child_by_field(n, "parameters"@) {
        Option::Some(p) => Option::Some(p),
        Option::None => spec_child_by_field(n, "formal_parameters"@),
    };
    match pn {
        Option::Some(p) => spec_params_under(p.children@),
        Option::None => Seq::empty(),
    }
}

/// Extracts the parameter list of a declaration.
pub fn params_of(n: &SynNode) -> (r: Vec<crate::facts::Param>)
    ensures
        r.deep_view() == spec_params(*n),
{
    let pn = match n.child_by_field("parameters") {
        Some(p) => p,
        None => {
            match n.child_by_field("formal_parameters") {
                Some(p) => p,
                None => {
                    return Vec::new();
                },
            }
        },
    };
    let m = pn.children.len();
    let mut out: Vec<crate::facts::Param> = Vec::new();
    let mut i: usize = 0;
    while i < m
        invariant
            i <= m,
            m == pn.children@.len(),
            out.deep_view() == spec_params_under(pn.children@.subrange(0, i as int)),
        decreases m - i,
    {
        let ghost prev = out.deep_view();
        let c = &pn.children[i];
        if c.named {
            let name = param_name_of(c);
            if name.len() > 0 && !crate::imports::chars_eq_str(&name, "self")
                && !crate::imports::chars_eq_str(&name, "cls") {
                let type_annotation = match c.child_by_field("type") {
                    Some(t) => Some(chars_to_string(&t.text)),
                    None => None,
                };
                let default = match c.child_by_field("value") {
                    Some(v) => Some(chars_to_string(&v.text)),
                    None => {
                        match c.child_by_field("default_value") {
                            Some(d) => Some(chars_to_string(&d.text)),
                            None => None,
                        }
                    },
                };
                out.push(
                    crate::facts::Param {
                        name: chars_to_string(&name),
                        type_annotation,
                        default,
                    },
                );
                proof {
                    assert(out.deep_view() =~= prev + spec_param_contrib(pn.children@[i as int]));
                }
            }
        }
        proof {
            let j = i as int;
            let pre = pn.children@.subrange(0, j + 1);
            assert(pre.subrange(0, j) =~= pn.children@.subrange(0, j));
            assert(pre[j] == pn.children@[j]);
            assert(out.deep_view() =~= spec_params_under(pre));
        }
        i = i + 1;
    }
    proof {
        assert(pn.children@.subrange(0, m as int) =~= pn.children@);
    }
    out
}

/// Reads the name of one parameter node.
fn param_name_of(c: &SynNode) -> (r: Vec<char>)
    ensures
        r@ == spec_param_name(*c),
{
    match c.child_by_field("name") {
        Some(nm) => copy_whole(&nm.text),
        None => {
            match c.child_by_field("pattern") {
                Some(p) => copy_whole(&p.text),
                None => copy_whole(&c.text),
            }
        },
    }
}

/// Copies a whole character vector.
pub fn copy_whole(v: &Vec<char>) -> (r: Vec<char>)
    ensures
        r@ == v@,
{
    let r = copy_range(v, 0, v.len());
    proof {
        assert(v@.subrange(0, v@.len() as int) =~= v@);
    }
    r
}

/// The visibility of the declaration `parent.children[i]`, by the
/// language's convention.
pub open spec fn spec_visibility(parent: SynNode, i: int, lang: Language) -> Option<Seq<char>> {
    let node = parent.children@[i];
    match lang {
        Language::Rust => {
            match spec_child_of_kind2(node, "visibility_modifier"@, "visibility_modifier"@) {
                Option::Some(c) => Option::Some(c.text@),
                Option::None => Option::None,
            }
        },
        Language::Java | Language::Php | Language::Cpp => {
            match spec_child_by_field(node, "modifiers"@) {
                Option::Some(m) => Option::Some(m.text@),
                Option::None => {
                    match spec_child_of_kind2(node, "modifiers"@, "access_specifier"@) {
                        Option::Some(c) => Option::Some(c.text@),
                        Option::None => Option::None,
                    }
                },
            }
        },
        Language::TypeScript | Language::JavaScript => {
            if parent.kind@ == "export_statement"@ {
                Option::Some("export"@)
            } else {
                Option::None
            }
        },
        Language::Python => {
            let name = match spec_child_by_field(node, "name"@) {
                Option::Some(nm) => nm.text@,
                Option::None => Seq::empty(),
            };
            if spec_starts_with(name, "__"@) && spec_ends_with(name, "__"@) {
                Option::Some("dunder"@)
            } else if spec_starts_with(name, "_"@) {
                Option::Some("private"@)
            } else {
                Option::Some("public"@)
            }
        },
        _ => Option::None,
    }
}

/// Extracts the visibility of the declaration `parent.children[i]`.
pub fn visibility_of(parent: &SynNode, i: usize, lang: &Language) -> (r: Option<String>)
    requires
        i < parent.children@.len(),
    ensures
        match r {
            Option::Some(v) => spec_visibility(*parent, i as int, *lang) == Option::Some(v@),
            Option::None => spec_visibility(*parent, i as int, *lang) is None,
        },
{
    let node = &parent.children[i];
    match lang {
        Language::Rust => {
            match child_of_kind2(node, "visibility_modifier", "visibility_modifier") {
                Some(c) => Some(chars_to_string(&c.text)),
                None => None,
            }
        },
        Language::Java | Language::Php | Language::Cpp => {
            match node.child_by_field("modifiers") {
                Some(m) => Some(chars_to_string(&m.text)),
                None => {
                    match child_of_kind2(node, "modifiers", "access_specifier") {
                        Some(c) => Some(chars_to_string(&c.text)),
                        None => None,
                    }
                },
            }
        },
        Language::TypeScript | Language::JavaScript => {
            if parent.is_kind("export_statement") {
                Some(String::from_str("export"))
            } else {
                None
            }
        },
        Language::Python => {
            let name = match node.child_by_field("name") {
                Some(nm) => copy_whole(&nm.text),
                None => Vec::new(),
            };
            proof {
                if (spec_child_by_field(parent.children@[i as int], "name"@) is None) {
                    assert(name@ =~= Seq::<char>::empty());
                }
            }
            if starts_with(&name, "__") && ends_with(&name, "__") {
                Some(String::from_str("dunder"))
            } else if starts_with(&name, "_") {
                Some(String::from_str("private"))
            } else {
                Some(String::from_str("public"))
            }
        },
        _ => None,
    }
}

/// Whether a node carries base types in its heritage clause.
pub open spec fn spec_is_heritage(c: SynNode) -> bool {
    c.kind@ == "class_heritage"@ || c.kind@ == "extends_clause"@ || c.kind@ == "superclass"@
        || c.kind@ == "implements_clause"@ || c.kind@ == "super_interfaces"@
}

/// The base names one heritage clause contributes.
pub open spec fn spec_heritage_names(t: Seq<char>) -> Seq<Seq<char>> {
    let cleaned = spec_trim(
        spec_replace(spec_replace(t, "extends"@, Seq::empty()), "implements"@, Seq::empty()),
    );
    spec_keep_nonempty(spec_trim_each(spec_split_char(cleaned, ',')))
}

/// The base names contributed by a prefix of a node's children, for the
/// heritage-clause languages.
pub open spec fn spec_bases_under(s: Seq<SynNode>) -> Seq<Seq<char>>
    decreases s,
{
    if s.len() == 0 {
        Seq::empty()
    } else {
        spec_bases_under(s.subrange(0, s.len() - 1)) + if spec_is_heritage(s[s.len() - 1]) {
            spec_heritage_names(s[s.len() - 1].text@)
        } else {
            Seq::empty()
        }
    }
}

/// The named children texts of the `superclasses` field, for Python.
pub open spec fn spec_superclass_names(s: Seq<SynNode>) -> Seq<Seq<char>>
    decreases s,
{
    if s.len() == 0 {
        Seq::empty()
    } else {
        spec_superclass_names(s.subrange(0, s.len() - 1)) + if s[s.len() - 1].named {
            seq![s[s.len() - 1].text@]
        } else {
            Seq::empty()
        }
    }
}

/// The base-type names of a class-like declaration.
pub open spec fn spec_bases(n: SynNode, lang: Language) -> Seq<Seq<char>> {
    match lang {
        Language::Python => {
            match spec_child_by_field(n, "superclasses"@) {
                Option::Some(args) => spec_superclass_names(args.children@),
                Option::None => Seq::empty(),
            }
        },
        Language::TypeScript | Language::JavaScript | Language::Java => spec_bases_under(
            n.children@,
        ),
        _ => Seq::empty(),
    }
}

/// Extracts the base-type names of a class-like declaration.
pub fn bases_of(n: &SynNode, lang: &Language) -> (r: Vec<String>)
    ensures
        r.deep_view() == spec_bases(*n, *lang),
{
    match lang {
        Language::Python => {
            let args = match n.child_by_field("superclasses") {
                Some(a) => a,
                None => {
                    return Vec::new();
                },
            };
            let m = args.children.len();
            let mut out: Vec<String> = Vec::new();
            let mut i: usize = 0;
            while i < m
                invariant
                    i <= m,
                    m == args.children@.len(),
                    out.deep_view() == spec_superclass_names(args.children@.subrange(0, i as int)),
                decreases m - i,
            {
                let ghost prev = out.deep_view();
                if args.children[i].named {
                    out.push(chars_to_string(&args.children[i].text));
                    proof {
                        assert(out.deep_view() =~= prev.push(args.children@[i as int].text@));
                    }
                }
                proof {
                    let j = i as int;
                    let pre = args.children@.subrange(0, j + 1);
                    assert(pre.subrange(0, j) =~= args.children@.subrange(0, j));
                    assert(pre[j] == args.children@[j]);
                    assert(out.deep_view() =~= spec_superclass_names(pre));
                }
                i = i + 1;
            }
            proof {
                assert(args.children@.subrange(0, m as int) =~= args.children@);
            }
            out
        },
        Language::TypeScript | Language::JavaScript | Language::Java => {
            let m = n.children.len();
            let mut out: Vec<String> = Vec::new();
            let mut i: usize = 0;
            while i < m
                invariant
                    i <= m,
                    m == n.children@.len(),
                    out.deep_view() == spec_bases_under(n.children@.subrange(0, i as int)),
                decreases m - i,
            {
                let ghost prev = out.deep_view();
                let c = &n.children[i];
                if c.is_kind("class_heritage") || c.is_kind("extends_clause") || c.is_kind(
                    "superclass",
                ) || c.is_kind("implements_clause") || c.is_kind("super_interfaces") {
                    proof {
                        reveal_strlit("extends");
                        reveal_strlit("implements");
                        reveal_strlit("");
                        assert(""@ =~= Seq::<char>::empty());
                    }
                    let cleaned = trim(
                        &replace_str(&replace_str(&c.text, "extends", ""), "implements", ""),
                    );
                    let names = keep_nonempty(trim_each(&split_char(&cleaned, ',')));
                    let mut names_s = to_strings(&names);
                    let ghost names_view = names_s.deep_view();
                    out.append(&mut names_s);
                    proof {
                        assert(out.deep_view() =~~= prev + names_view);
                    }
                }
                proof {
                    let j = i as int;
                    let pre = n.children@.subrange(0, j + 1);
                    assert(pre.subrange(0, j) =~= n.children@.subrange(0, j));
                    assert(pre[j] == n.children@[j]);
                    assert(out.deep_view() =~= spec_bases_under(pre));
                }
                i = i + 1;
            }
            proof {
                assert(n.children@.subrange(0, m as int) =~= n.children@);
            }
            out
        },
        _ => Vec::new(),
    }
}

/// Extracts the decorators of a node.
pub fn decorators_of(n: &SynNode) -> (r: Vec<String>)
    ensures
        r.deep_view() == spec_decorators(n.children@),
{
    let m = n.children.len();
    let mut out: Vec<String> = Vec::new();
    let mut i: usize = 0;
    while i < m
        invariant
            i <= m,
            m == n.children@.len(),
            out.deep_view() == spec_decorators(n.children@.subrange(0, i as int)),
        decreases m - i,
    {
        let ghost prev = out.deep_view();
        if n.children[i].is_kind("decorator") {
            let t = trim(&n.children[i].text);
            out.push(chars_to_string(&t));
            proof {
                assert(out.deep_view() =~= prev.push(spec_trim(n.children@[i as int].text@)));
            }
        }
        proof {
            let j = i as int;
            let pre = n.children@.subrange(0, j + 1);
            assert(pre.subrange(0, j) =~= n.children@.subrange(0, j));
            assert(pre[j] == n.children@[j]);
            assert(out.deep_view() =~= spec_decorators(pre));
        }
        i = i + 1;
    }
    proof {
        assert(n.children@.subrange(0, m as int) =~= n.children@);
    }
    out
}

} // verus!
