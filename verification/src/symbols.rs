//! Symbol collection: a recursive descent over the syntax tree that, per
//! (language, node-kind) pair, recognizes declaration forms and emits a
//! `Symbol` for each, threading the enclosing scope name downward so that
//! nested declarations carry their parent scope.

use vstd::prelude::*;
use vstd::string::*;
use crate::lang::Language;
use crate::tree::{SynNode, spec_child_by_field, first_field_idx};
use crate::facts::{Symbol, SymbolV};
use crate::docs::{spec_docstring, docstring_of};
use crate::enrich::{
    spec_preview, preview_of, spec_signature, signature_of, spec_params, params_of,
    spec_return_type, return_type_of, spec_visibility, visibility_of, spec_decorators,
    decorators_of, spec_bases, bases_of, copy_whole,
};
use crate::text::chars_to_string;

verus! {

/// A zero-based row as a one-based line number, saturating at the machine
/// limit.
pub open spec fn spec_row1(r: int) -> int {
    if r >= usize::MAX {
        usize::MAX as int
    } else {
        r + 1
    }
}

/// Converts a zero-based row to a one-based line number.
fn row1(r: usize) -> (o: usize)
    ensures
        o as int == spec_row1(r as int),
{
    if r == usize::MAX {
        r
    } else {
        r + 1
    }
}

/// The spec view of an optional scope name.
pub open spec fn opt_chars_view(o: Option<&Vec<char>>) -> Option<Seq<char>> {
    match o {
        Option::Some(v) => Option::Some(v@),
        Option::None => Option::None,
    }
}

/// An optional symbol as a zero- or one-element sequence.
pub open spec fn opt_seq(o: Option<SymbolV>) -> Seq<SymbolV> {
    match o {
        Option::Some(s) => seq![s],
        Option::None => Seq::empty(),
    }
}

/// The text of the first child of `c` in field `f`, or empty.
pub open spec fn spec_field_text(c: SynNode, f: Seq<char>) -> Seq<char> {
    match spec_child_by_field(c, f) {
        Option::Some(x) => x.text@,
        Option::None => Seq::empty(),
    }
}

/// The symbol built from the declaration `parent.children[i]`: named by its
/// `name` (or `declarator`) child, located by its line span, and enriched
/// with preview, docstring, signature, parameters, return type, visibility,
/// scope, decorators and base types.  No name, or an empty one, yields none.
pub open spec fn spec_build(
    parent: SynNode,
    i: int,
    lang: Language,
    kind: Seq<char>,
    scope: Option<Seq<char>>,
    decorators: Seq<Seq<char>>,
    bases: Seq<Seq<char>>,
) -> Option<SymbolV> {
    let n = parent.children@[i];
    let name_node = match spec_child_by_field(n, "name"@) {
        Option::Some(x) => Option::Some(x),
        Option::None => spec_child_by_field(n, "declarator"@),
    };
    match name_node {
        Option::None => Option::None,
        Option::Some(nn) => {
            let actual = match spec_child_by_field(nn, "declarator"@) {
                Option::Some(d) => d,
                Option::None => nn,
            };
            if actual.text@.len() == 0 {
                Option::None
            } else {
                Option::Some(
                    SymbolV {
                        name: actual.text@,
                        kind: kind,
                        range: (spec_row1(n.start_row as int), spec_row1(n.end_row as int)),
                        content_preview: spec_preview(n),
                        docstring: spec_docstring(parent.children@, i, lang),
                        signature: spec_signature(n),
                        params: spec_params(n),
                        return_type: spec_return_type(n),
                        visibility: spec_visibility(parent, i, lang),
                        parent_class: scope,
                        decorators: decorators,
                        calls: Seq::empty(),
                        bases: bases,
                    },
                )
            }
        },
    }
}

/// Builds the symbol for the declaration `parent.children[i]`.
pub fn build_symbol(
    parent: &SynNode,
    i: usize,
    lang: &Language,
    kind: &str,
    scope: Option<&Vec<char>>,
    decorators: Vec<String>,
    bases: Vec<String>,
) -> (r: Option<Symbol>)
    requires
        i < parent.children@.len(),
    ensures
        ({
            let b = spec_build(
                *parent,
                i as int,
                *lang,
                kind@,
                opt_chars_view(scope),
                decorators.deep_view(),
                bases.deep_view(),
            );
            match r {
                Option::Some(sym) => b == Option::Some(sym.deep_view()),
                Option::None => b is None,
            }
        }),
{
    let n = &parent.children[i];
    let name_node = match n.child_by_field("name") {
        Some(x) => x,
        None => {
            match n.child_by_field("declarator") {
                Some(x) => x,
                None => {
                    return None;
                },
            }
        },
    };
    let actual = match name_node.child_by_field("declarator") {
        Some(d) => d,
        None => name_node,
    };
    if actual.text.len() == 0 {
        return None;
    }
    let name = chars_to_string(&actual.text);
    let preview_c = preview_of(n);
    let docstring = docstring_of(&parent.children, i, lang);
    let signature = match signature_of(n) {
        Some(v) => Some(chars_to_string(&v)),
        None => None,
    };
    let params = params_of(n);
    let return_type = match return_type_of(n) {
        Some(v) => Some(chars_to_string(&v)),
        None => None,
    };
    let visibility = visibility_of(parent, i, lang);
    let parent_class = match scope {
        Some(v) => Some(chars_to_string(v)),
        None => None,
    };
    let calls: Vec<String> = Vec::new();
    let sym = Symbol {
        name,
        kind: String::from_str(kind),
        range: (row1(n.start_row), row1(n.end_row)),
        content_preview: chars_to_string(&preview_c),
        docstring,
        signature,
        params,
        return_type,
        visibility,
        parent_class,
        decorators,
        calls,
        bases,
    };
    proof {
        let b = spec_build(
            *parent,
            i as int,
            *lang,
            kind@,
            opt_chars_view(scope),
            sym.decorators.deep_view(),
            sym.bases.deep_view(),
        );
        assert(sym.deep_view() =~~= b->0);
    }
    Some(sym)
}

/// What the single child `P.children[i]` of a variable-declaration list
/// contributes: one function symbol per declarator whose value is an arrow
/// function or a function expression.
pub open spec fn spec_var_contrib(c: SynNode, j: int, lang: Language, scope: Option<Seq<char>>)
    -> Seq<SymbolV> {
    let d = c.children@[j];
    if d.kind@ == "variable_declarator"@ && (match spec_child_by_field(d, "value"@) {
        Option::Some(v) => v.kind@ == "arrow_function"@ || v.kind@ == "function_expression"@,
        Option::None => false,
    }) {
        opt_seq(spec_build(c, j, lang, "function"@, scope, Seq::empty(), Seq::empty()))
    } else {
        Seq::empty()
    }
}

/// The function symbols of the first `j` children of a variable-declaration
/// list.
pub open spec fn spec_var_fold(c: SynNode, j: int, lang: Language, scope: Option<Seq<char>>)
    -> Seq<SymbolV>
    decreases j,
{
    if j <= 0 || j > c.children@.len() {
        Seq::empty()
    } else {
        spec_var_fold(c, j - 1, lang, scope) + spec_var_contrib(c, j - 1, lang, scope)
    }
}

/// All symbols collected from the subtree rooted at `P`, in source order,
/// with `scope` as the enclosing scope name.
pub open spec fn spec_collect(p: SynNode, lang: Language, scope: Option<Seq<char>>) -> Seq<
    SymbolV,
>
    decreases p, 1int, 0int,
{
    spec_syms_under(p, p.children@.len() as int, lang, scope)
}

/// The symbols contributed by the first `i` children of `P`.
pub open spec fn spec_syms_under(p: SynNode, i: int, lang: Language, scope: Option<Seq<char>>)
    -> Seq<SymbolV>
    decreases p, 0int, i,
{
    if i <= 0 || i > p.children@.len() {
        Seq::empty()
    } else {
        spec_syms_under(p, i - 1, lang, scope) + spec_child_syms(p, i - 1, lang, scope)
    }
}

/// The symbols of a class-like declaration `P.children[i]`: the class
/// symbol itself (with base types when the language records them), then the
/// members collected under the class's name as scope.
pub open spec fn spec_class_syms(
    p: SynNode,
    i: int,
    lang: Language,
    scope: Option<Seq<char>>,
    with_bases: bool,
) -> Seq<SymbolV>
    decreases p.children@[i], 2int, 0int,
{
    if i < 0 || i >= p.children@.len() {
        Seq::empty()
    } else {
        let c = p.children@[i];
        let name = spec_field_text(c, "name"@);
        let bases: Seq<Seq<char>> = if with_bases {
            spec_bases(c, lang)
        } else {
            Seq::empty()
        };
        opt_seq(spec_build(p, i, lang, "class"@, scope, Seq::empty(), bases)) + if name.len()
            > 0 {
            spec_collect(c, lang, Option::Some(name))
        } else {
            Seq::empty()
        }
    }
}

/// The symbols contributed by the single child `P.children[i]`, by the
/// (language, node-kind) declaration table.
pub open spec fn spec_child_syms(p: SynNode, i: int, lang: Language, scope: Option<Seq<char>>)
    -> Seq<SymbolV>
    decreases p.children@[i], 3int, 0int,
{
    if i < 0 || i >= p.children@.len() {
        Seq::empty()
    } else {
        let c = p.children@[i];
        let ks: Seq<char> = if scope is Some {
            "method"@
        } else {
            "function"@
        };
        match lang {
            Language::Python => {
                if c.kind@ == "function_definition"@ || c.kind@ == "decorated_definition"@ {
                    if c.kind@ == "decorated_definition"@ {
                        let decos = spec_decorators(c.children@);
                        let di = first_field_idx(c.children@, "definition"@);
                        if di >= 0 {
                            opt_seq(spec_build(c, di, lang, ks, scope, decos, Seq::empty()))
                        } else {
                            opt_seq(spec_build(p, i, lang, ks, scope, decos, Seq::empty()))
                        }
                    } else {
                        opt_seq(spec_build(p, i, lang, ks, scope, Seq::empty(), Seq::empty()))
                    }
                } else if c.kind@ == "class_definition"@ {
                    spec_class_syms(p, i, lang, scope, true)
                } else {
                    spec_collect(c, lang, scope)
                }
            },
            Language::TypeScript | Language::JavaScript => {
                if c.kind@ == "function_declaration"@ {
                    opt_seq(
                        spec_build(p, i, lang, "function"@, scope, Seq::empty(), Seq::empty()),
                    )
                } else if c.kind@ == "class_declaration"@ {
                    spec_class_syms(p, i, lang, scope, true)
                } else if c.kind@ == "method_definition"@ {
                    opt_seq(spec_build(p, i, lang, "method"@, scope, Seq::empty(), Seq::empty()))
                } else if c.kind@ == "lexical_declaration"@ || c.kind@ == "variable_declaration"@ {
                    spec_var_fold(c, c.children@.len() as int, lang, scope)
                } else if lang is TypeScript && (c.kind@ == "interface_declaration"@ || c.kind@
                    == "type_alias_declaration"@) {
                    opt_seq(spec_build(p, i, lang, "class"@, scope, Seq::empty(), Seq::empty()))
                } else {
                    spec_collect(c, lang, scope)
                }
            },
            Language::Rust => {
                if c.kind@ == "function_item"@ {
                    opt_seq(
                        spec_build(p, i, lang, "function"@, scope, Seq::empty(), Seq::empty()),
                    )
                } else if c.kind@ == "struct_item"@ || c.kind@ == "enum_item"@ || c.kind@
                    == "trait_item"@ {
                    opt_seq(spec_build(p, i, lang, "class"@, scope, Seq::empty(), Seq::empty()))
                } else if c.kind@ == "impl_item"@ {
                    let tname = spec_field_text(c, "type"@);
                    if tname.len() > 0 {
                        spec_collect(c, lang, Option::Some(tname))
                    } else {
                        Seq::empty()
                    }
                } else {
                    spec_collect(c, lang, scope)
                }
            },
            Language::Go => {
                if c.kind@ == "function_declaration"@ {
                    opt_seq(
                        spec_build(p, i, lang, "function"@, scope, Seq::empty(), Seq::empty()),
                    )
                } else if c.kind@ == "method_declaration"@ {
                    opt_seq(spec_build(p, i, lang, "method"@, scope, Seq::empty(), Seq::empty()))
                } else if c.kind@ == "type_declaration"@ {
                    opt_seq(spec_build(p, i, lang, "class"@, scope, Seq::empty(), Seq::empty()))
                } else {
                    spec_collect(c, lang, scope)
                }
            },
            Language::Java => {
                if c.kind@ == "class_declaration"@ || c.kind@ == "interface_declaration"@ {
                    spec_class_syms(p, i, lang, scope, true)
                } else if c.kind@ == "method_declaration"@ || c.kind@
                    == "constructor_declaration"@ {
                    opt_seq(spec_build(p, i, lang, "method"@, scope, Seq::empty(), Seq::empty()))
                } else {
                    spec_collect(c, lang, scope)
                }
            },
            Language::Cpp => {
                if c.kind@ == "function_definition"@ {
                    opt_seq(
                        spec_build(p, i, lang, "function"@, scope, Seq::empty(), Seq::empty()),
                    )
                } else if c.kind@ == "class_specifier"@ {
                    spec_class_syms(p, i, lang, scope, false)
                } else {
                    spec_collect(c, lang, scope)
                }
            },
            Language::Ruby => {
                if c.kind@ == "method"@ || c.kind@ == "singleton_method"@ {
                    opt_seq(
                        spec_build(p, i, lang, "function"@, scope, Seq::empty(), Seq::empty()),
                    )
                } else if c.kind@ == "class"@ || c.kind@ == "module"@ {
                    spec_class_syms(p, i, lang, scope, false)
                } else {
                    spec_collect(c, lang, scope)
                }
            },
            Language::Php => {
                if c.kind@ == "function_definition"@ {
                    opt_seq(
                        spec_build(p, i, lang, "function"@, scope, Seq::empty(), Seq::empty()),
                    )
                } else if c.kind@ == "method_declaration"@ {
                    opt_seq(spec_build(p, i, lang, "method"@, scope, Seq::empty(), Seq::empty()))
                } else if c.kind@ == "class_declaration"@ {
                    spec_class_syms(p, i, lang, scope, false)
                } else {
                    spec_collect(c, lang, scope)
                }
            },
            Language::Unknown => spec_collect(c, lang, scope),
        }
    }
}


/// Collects the symbols of the subtree rooted at `P` onto `out`.
pub fn collect_symbols(p: &SynNode, lang: &Language, scope: Option<&Vec<char>>, out: &mut Vec<
    Symbol,
>)
    ensures
        final(out).deep_view() == old(out).deep_view() + spec_collect(
            *p,
            *lang,
            opt_chars_view(scope),
        ),
    decreases *p, 1int,
{
    let ghost base = old(out).deep_view();
    let ghost sc = opt_chars_view(scope);
    let m = p.children.len();
    let mut i: usize = 0;
    proof {
        assert(spec_syms_under(*p, 0, *lang, sc) == Seq::<SymbolV>::empty());
        assert(out.deep_view() =~= base + spec_syms_under(*p, 0, *lang, sc));
    }
    while i < m
        invariant
            i <= m,
            m == p.children@.len(),
            out.deep_view() == base + spec_syms_under(*p, i as int, *lang, sc),
        decreases m - i,
    {
        child_syms(p, i, lang, scope, out);
        proof {
            assert(out.deep_view() =~= base + spec_syms_under(*p, i + 1, *lang, sc));
        }
        i = i + 1;
    }
}

/// Handles one child of `P` by the declaration table, pushing its symbols.
#[verifier::rlimit(100)]
fn child_syms(p: &SynNode, i: usize, lang: &Language, scope: Option<&Vec<char>>, out: &mut Vec<
    Symbol,
>)
    requires
        i < p.children@.len(),
    ensures
        final(out).deep_view() == old(out).deep_view() + spec_child_syms(
            *p,
            i as int,
            *lang,
            opt_chars_view(scope),
        ),
    decreases p.children@[i as int], 3int,
{
    let ghost base = old(out).deep_view();
    let ghost sc = opt_chars_view(scope);
    let ghost part = spec_child_syms(*p, i as int, *lang, sc);
    let c = &p.children[i];
    let ks: &str = if scope.is_some() {
        "method"
    } else {
        "function"
    };
    match lang {
        Language::Python => {
            if c.is_kind("function_definition") || c.is_kind("decorated_definition") {
                let sym_opt = if c.is_kind("decorated_definition") {
                    let decos = decorators_of(c);
                    match c.field_index("definition") {
                        Some(di) => build_symbol(c, di, lang, ks, scope, decos, empty_strings()),
                        None => build_symbol(p, i, lang, ks, scope, decos, empty_strings()),
                    }
                } else {
                    build_symbol(p, i, lang, ks, scope, empty_strings(), empty_strings())
                };
                push_opt(out, sym_opt);
                proof {
                    assert(out.deep_view() =~= base + part);
                }
            } else if c.is_kind("class_definition") {
                class_syms(p, i, lang, scope, true, out);
            } else {
                collect_symbols(c, lang, scope, out);
            }
        },
        Language::TypeScript | Language::JavaScript => {
            if c.is_kind("function_declaration") {
                let sym_opt = build_symbol(p, i, lang, "function", scope, empty_strings(), empty_strings());
                push_opt(out, sym_opt);
                proof {
                    assert(out.deep_view() =~= base + part);
                }
            } else if c.is_kind("class_declaration") {
                class_syms(p, i, lang, scope, true, out);
            } else if c.is_kind("method_definition") {
                let sym_opt = build_symbol(p, i, lang, "method", scope, empty_strings(), empty_strings());
                push_opt(out, sym_opt);
                proof {
                    assert(out.deep_view() =~= base + part);
                }
            } else if c.is_kind("lexical_declaration") || c.is_kind("variable_declaration") {
                let m2 = c.children.len();
                let mut j: usize = 0;
                proof {
                    assert(spec_var_fold(*c, 0, *lang, sc) == Seq::<SymbolV>::empty());
                    assert(out.deep_view() =~= base + spec_var_fold(*c, 0, *lang, sc));
                }
                while j < m2
                    invariant
                        j <= m2,
                        m2 == c.children@.len(),
                        out.deep_view() == base + spec_var_fold(*c, j as int, *lang, sc),
                    decreases m2 - j,
                {
                    let d = &c.children[j];
                    if d.is_kind("variable_declarator") {
                        match d.child_by_field("value") {
                            Some(v) => {
                                if v.is_kind("arrow_function") || v.is_kind("function_expression") {
                                    let sym_opt = build_symbol(
                                        c,
                                        j,
                                        lang,
                                        "function",
                                        scope,
                                        empty_strings(),
                                        empty_strings(),
                                    );
                                    push_opt(out, sym_opt);
                                }
                            },
                            None => {},
                        }
                    }
                    proof {
                        assert(out.deep_view() =~= base + spec_var_fold(*c, j + 1, *lang, sc));
                    }
                    j = j + 1;
                }
                proof {
                    assert(out.deep_view() =~= base + part);
                }
            } else {
                let is_ts_decl = match lang {
                    Language::TypeScript => c.is_kind("interface_declaration") || c.is_kind(
                        "type_alias_declaration",
                    ),
                    _ => false,
                };
                if is_ts_decl {
                    let sym_opt = build_symbol(p, i, lang, "class", scope, empty_strings(), empty_strings());
                    push_opt(out, sym_opt);
                    proof {
                        assert(out.deep_view() =~= base + part);
                    }
                } else {
                    collect_symbols(c, lang, scope, out);
                }
            }
        },
        Language::Rust => {
            if c.is_kind("function_item") {
                let sym_opt = build_symbol(p, i, lang, "function", scope, empty_strings(), empty_strings());
                push_opt(out, sym_opt);
                proof {
                    assert(out.deep_view() =~= base + part);
                }
            } else if c.is_kind("struct_item") || c.is_kind("enum_item") || c.is_kind(
                "trait_item",
            ) {
                let sym_opt = build_symbol(p, i, lang, "class", scope, empty_strings(), empty_strings());
                push_opt(out, sym_opt);
                proof {
                    assert(out.deep_view() =~= base + part);
                }
            } else if c.is_kind("impl_item") {
                let tname = match c.child_by_field("type") {
                    Some(t) => copy_whole(&t.text),
                    None => Vec::new(),
                };
                proof {
                    if (spec_child_by_field(*c, "type"@) is None) {
                        assert(tname@ =~= Seq::<char>::empty());
                    }
                }
                if tname.len() > 0 {
                    collect_symbols(c, lang, Some(&tname), out);
                }
            } else {
                collect_symbols(c, lang, scope, out);
            }
        },
        Language::Go => {
            if c.is_kind("function_declaration") {
                let sym_opt = build_symbol(p, i, lang, "function", scope, empty_strings(), empty_strings());
                push_opt(out, sym_opt);
                proof {
                    assert(out.deep_view() =~= base + part);
                }
            } else if c.is_kind("method_declaration") {
                let sym_opt = build_symbol(p, i, lang, "method", scope, empty_strings(), empty_strings());
                push_opt(out, sym_opt);
                proof {
                    assert(out.deep_view() =~= base + part);
                }
            } else if c.is_kind("type_declaration") {
                let sym_opt = build_symbol(p, i, lang, "class", scope, empty_strings(), empty_strings());
                push_opt(out, sym_opt);
                proof {
                    assert(out.deep_view() =~= base + part);
                }
            } else {
                collect_symbols(c, lang, scope, out);
            }
        },
        Language::Java => {
            if c.is_kind("class_declaration") || c.is_kind("interface_declaration") {
                class_syms(p, i, lang, scope, true, out);
            } else if c.is_kind("method_declaration") || c.is_kind("constructor_declaration") {
                let sym_opt = build_symbol(p, i, lang, "method", scope, empty_strings(), empty_strings());
                push_opt(out, sym_opt);
                proof {
                    assert(out.deep_view() =~= base + part);
                }
            } else {
                collect_symbols(c, lang, scope, out);
            }
        },
        Language::Cpp => {
            if c.is_kind("function_definition") {
                let sym_opt = build_symbol(p, i, lang, "function", scope, empty_strings(), empty_strings());
                push_opt(out, sym_opt);
                proof {
                    assert(out.deep_view() =~= base + part);
                }
            } else if c.is_kind("class_specifier") {
                class_syms(p, i, lang, scope, false, out);
            } else {
                collect_symbols(c, lang, scope, out);
            }
        },
        Language::Ruby => {
            if c.is_kind("method") || c.is_kind("singleton_method") {
                let sym_opt = build_symbol(p, i, lang, "function", scope, empty_strings(), empty_strings());
                push_opt(out, sym_opt);
                proof {
                    assert(out.deep_view() =~= base + part);
                }
            } else if c.is_kind("class") || c.is_kind("module") {
                class_syms(p, i, lang, scope, false, out);
            } else {
                collect_symbols(c, lang, scope, out);
            }
        },
        Language::Php => {
            if c.is_kind("function_definition") {
                let sym_opt = build_symbol(p, i, lang, "function", scope, empty_strings(), empty_strings());
                push_opt(out, sym_opt);
                proof {
                    assert(out.deep_view() =~= base + part);
                }
            } else if c.is_kind("method_declaration") {
                let sym_opt = build_symbol(p, i, lang, "method", scope, empty_strings(), empty_strings());
                push_opt(out, sym_opt);
                proof {
                    assert(out.deep_view() =~= base + part);
                }
            } else if c.is_kind("class_declaration") {
                class_syms(p, i, lang, scope, false, out);
            } else {
                collect_symbols(c, lang, scope, out);
            }
        },
        Language::Unknown => {
            collect_symbols(c, lang, scope, out);
        },
    }
}

/// An empty string vector whose deep view is the empty sequence.
fn empty_strings() -> (r: Vec<String>)
    ensures
        r.deep_view() == Seq::<Seq<char>>::empty(),
{
    let r: Vec<String> = Vec::new();
    proof {
        assert(r.deep_view() =~= Seq::<Seq<char>>::empty());
    }
    r
}

/// Pushes a built symbol, if there is one.
fn push_opt(out: &mut Vec<Symbol>, sym_opt: Option<Symbol>)
    ensures
        final(out).deep_view() == old(out).deep_view() + (match sym_opt {
            Option::Some(sym) => seq![sym.deep_view()],
            Option::None => Seq::empty(),
        }),
{
    let ghost prev = out.deep_view();
    match sym_opt {
        Some(sym) => {
            let ghost sv = sym.deep_view();
            out.push(sym);
            proof {
                assert(out.deep_view() =~= prev.push(sv));
                assert(prev.push(sv) =~= prev + seq![sv]);
            }
        },
        None => {
            proof {
                assert(out.deep_view() =~= prev + Seq::<SymbolV>::empty());
            }
        },
    }
}

/// Handles a class-like child: its own symbol, then its members with the
/// class name as scope.
fn class_syms(
    p: &SynNode,
    i: usize,
    lang: &Language,
    scope: Option<&Vec<char>>,
    with_bases: bool,
    out: &mut Vec<Symbol>,
)
    requires
        i < p.children@.len(),
    ensures
        final(out).deep_view() == old(out).deep_view() + spec_class_syms(
            *p,
            i as int,
            *lang,
            opt_chars_view(scope),
            with_bases,
        ),
    decreases p.children@[i as int], 2int,
{
    let ghost base = old(out).deep_view();
    let ghost sc = opt_chars_view(scope);
    let c = &p.children[i];
    let name = match c.child_by_field("name") {
        Some(nm) => copy_whole(&nm.text),
        None => Vec::new(),
    };
    proof {
        if (spec_child_by_field(*c, "name"@) is None) {
            assert(name@ =~= Seq::<char>::empty());
        }
    }
    let bases = if with_bases {
        bases_of(c, lang)
    } else {
        Vec::new()
    };
    proof {
        if !with_bases {
            assert(bases.deep_view() =~= Seq::<Seq<char>>::empty());
        }
    }
    let sym_opt = build_symbol(p, i, lang, "class", scope, empty_strings(), bases);
    push_opt(out, sym_opt);
    let ghost mid = out.deep_view();
    if name.len() > 0 {
        collect_symbols(c, lang, Some(&name), out);
    }
    proof {
        assert(out.deep_view() =~= base + spec_class_syms(*p, i as int, *lang, sc, with_bases));
    }
}

/// Extracts every symbol of the file, in source order.
pub fn extract_symbols(root: &SynNode, lang: &Language) -> (r: Vec<Symbol>)
    ensures
        r.deep_view() == spec_collect(*root, *lang, Option::None),
{
    let mut out: Vec<Symbol> = Vec::new();
    collect_symbols(root, lang, None, &mut out);
    proof {
        assert(Seq::<SymbolV>::empty() + spec_collect(*root, *lang, Option::None) =~= spec_collect(
            *root,
            *lang,
            Option::None,
        ));
    }
    out
}

} // verus!
