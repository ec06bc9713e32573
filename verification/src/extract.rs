//! The extractor's entry point: language detection, parsing, the two
//! independent passes (symbols, then calls), and their merge into one
//! `ParsingResult`.
//!
//! Extraction is a pure function of the file name and content: an
//! unrecognized extension yields empty facts, never an error; a parse
//! failure on a supported language is fatal to that one file.

use vstd::prelude::*;
use vstd::string::*;
use crate::lang::{Language, spec_detect_language, detect_language};
use crate::facts::{ParsingResult, ParsingResultV, SymbolV, ExtractionError};
use crate::tree::SynNode;
use crate::tsparse::{tree_of, parse_tree};
use crate::symbols::{spec_collect, extract_symbols};
use crate::imports::{spec_imports_in, extract_imports};
use crate::exports::{spec_exports, extract_exports};
use crate::calls::{
    CallsEntryV, spec_call_entries_in, extract_call_graph, spec_lookup_calls, lookup_calls,
};

verus! {

/// `sym` with the call list its name has in the call map, when it has one.
pub open spec fn spec_with_calls(sym: SymbolV, entries: Seq<CallsEntryV>) -> SymbolV {
    match spec_lookup_calls(entries, sym.name) {
        Option::Some(cs) => SymbolV { calls: cs, ..sym },
        Option::None => sym,
    }
}

/// The full facts extracted from the parse tree of one supported-language
/// file: symbols (with their call lists merged in by name), imports and
/// exports.
pub open spec fn spec_facts(lang: Language, t: SynNode) -> ParsingResultV {
    let entries = spec_call_entries_in(t, lang);
    ParsingResultV {
        language: lang,
        symbols: spec_collect(t, lang, Option::None).map_values(
            |sym: SymbolV| spec_with_calls(sym, entries),
        ),
        imports: spec_imports_in(t, lang),
        exports: spec_exports(t, lang),
    }
}

/// An empty result for an unrecognized extension.
pub open spec fn spec_empty_result(lang: Language) -> ParsingResultV {
    ParsingResultV {
        language: lang,
        symbols: Seq::empty(),
        imports: Seq::empty(),
        exports: Seq::empty(),
    }
}

/// What extraction yields for one file: empty facts for an unrecognized
/// extension, an error exactly when the parser fails on a supported
/// language, and otherwise the facts of the parse tree.
pub open spec fn spec_parse_content(filename: Seq<char>, content: Seq<char>) -> Result<
    ParsingResultV,
    ExtractionError,
> {
    let lang = spec_detect_language(filename);
    if lang == Language::Unknown {
        Result::Ok(spec_empty_result(lang))
    } else {
        match tree_of(lang, content) {
            Option::None => Result::Err(ExtractionError),
            Option::Some(t) => Result::Ok(spec_facts(lang, t)),
        }
    }
}

/// Extracts the structural facts of one file from its name and content.
pub fn parse_content(filename: &str, content: &str) -> (r: Result<
    ParsingResult,
    ExtractionError,
>)
    ensures
        match r {
            Result::Ok(p) => spec_parse_content(filename@, content@) == Result::<
                ParsingResultV,
                ExtractionError,
            >::Ok(p.deep_view()),
            Result::Err(e) => spec_parse_content(filename@, content@) == Result::<
                ParsingResultV,
                ExtractionError,
            >::Err(e),
        },
{
    let language = detect_language(filename);
    match language {
        Language::Unknown => {
            let p = ParsingResult {
                language,
                symbols: Vec::new(),
                imports: Vec::new(),
                exports: Vec::new(),
            };
            proof {
                assert(p.deep_view() =~~= spec_empty_result(Language::Unknown));
            }
            Ok(p)
        },
        _ => {
            let t = match parse_tree(&language, content) {
                Some(t) => t,
                None => {
                    return Err(ExtractionError);
                },
            };
            let symbols = extract_symbols(&t, &language);
            let imports = extract_imports(&t, &language);
            let exports = extract_exports(&t, &language);
            let entries = extract_call_graph(&t, &language);
            let ghost orig = symbols.deep_view();
            let ghost ev = entries.deep_view();
            let mut rest = symbols;
            let mut merged: Vec<crate::facts::Symbol> = Vec::new();
            proof {
                assert(orig.skip(0) =~= orig);
                assert(merged.deep_view() =~= orig.take(0).map_values(
                    |sym: SymbolV| spec_with_calls(sym, ev),
                ));
            }
            while rest.len() > 0
                invariant
                    merged@.len() + rest@.len() == orig.len(),
                    rest.deep_view() == orig.skip(merged@.len() as int),
                    ev == entries.deep_view(),
                    merged.deep_view() == orig.take(merged@.len() as int).map_values(
                        |sym: SymbolV| spec_with_calls(sym, ev),
                    ),
                decreases rest@.len(),
            {
                let ghost k = merged@.len() as int;
                let ghost oldrest = rest@;
                let ghost rdv_old = rest.deep_view();
                let mut sym = rest.remove(0);
                proof {
                    assert(rest@ =~= oldrest.subrange(1, oldrest.len() as int));
                    assert forall|j: int|
                        0 <= j < rest@.len() implies rest.deep_view()[j] == orig.skip(k + 1)[j] by {
                        assert(rest@[j] == oldrest[j + 1]);
                        assert(rest.deep_view()[j] == rest@[j].deep_view());
                        assert(rdv_old[j + 1] == oldrest[j + 1].deep_view());
                        assert(rdv_old[j + 1] == orig.skip(k)[j + 1]);
                        assert(orig.skip(k)[j + 1] == orig[k + 1 + j]);
                        assert(orig.skip(k + 1)[j] == orig[k + 1 + j]);
                    }
                    assert(rest.deep_view() =~= orig.skip(k + 1));
                    assert(sym == oldrest[0]);
                    assert(rdv_old[0] == oldrest[0].deep_view());
                    assert(orig.skip(k)[0] == orig[k]);
                    assert(sym.deep_view() == orig[k]);
                }
                let ghost sv = sym.deep_view();
                match lookup_calls(&entries, sym.name.as_str()) {
                    Some(cs) => {
                        sym.calls = cs;
                        proof {
                            assert(sym.deep_view() =~~= spec_with_calls(sv, ev));
                        }
                    },
                    None => {
                        proof {
                            assert(sym.deep_view() =~~= spec_with_calls(sv, ev));
                        }
                    },
                }
                let ghost prev = merged.deep_view();
                merged.push(sym);
                proof {
                    assert(merged.deep_view() =~= prev.push(spec_with_calls(orig[k], ev)));
                    assert(orig.take(k + 1).map_values(
                        |sym: SymbolV| spec_with_calls(sym, ev),
                    ) =~= orig.take(k).map_values(|sym: SymbolV| spec_with_calls(sym, ev)).push(
                        spec_with_calls(orig[k], ev),
                    ));
                }
            }
            proof {
                assert(orig.take(orig.len() as int) =~= orig);
            }
            let p = ParsingResult { language, symbols: merged, imports, exports };
            proof {
                assert(p.deep_view() =~~= spec_facts(language, t));
            }
            Ok(p)
        },
    }
}

/// Extraction is deterministic: the facts of a file are a function of its
/// name and content alone, so two extractions of the same name and content
/// agree exactly.
pub proof fn lemma_extraction_deterministic(
    filename: Seq<char>,
    content: Seq<char>,
    r1: Result<ParsingResultV, ExtractionError>,
    r2: Result<ParsingResultV, ExtractionError>,
)
    requires
        r1 == spec_parse_content(filename, content),
        r2 == spec_parse_content(filename, content),
    ensures
        r1 == r2,
{
}

/// A file with an unrecognized extension always extracts successfully, to
/// empty symbols, imports and exports.
pub proof fn lemma_unsupported_is_empty(filename: Seq<char>, content: Seq<char>)
    requires
        spec_detect_language(filename) == Language::Unknown,
    ensures
        spec_parse_content(filename, content) == Result::<
            ParsingResultV,
            ExtractionError,
        >::Ok(spec_empty_result(Language::Unknown)),
        spec_parse_content(filename, content)->Ok_0.symbols.len() == 0,
        spec_parse_content(filename, content)->Ok_0.imports.len() == 0,
        spec_parse_content(filename, content)->Ok_0.exports.len() == 0,
{
}

/// A supported-language file fails extraction exactly when the parser
/// yields no tree for it.
pub proof fn lemma_error_iff_parse_failure(filename: Seq<char>, content: Seq<char>)
    requires
        spec_detect_language(filename) != Language::Unknown,
    ensures
        spec_parse_content(filename, content) is Err <==> tree_of(
            spec_detect_language(filename),
            content,
        ) is None,
{
}

/// Whether no two symbols share both a name and a start line, the pair
/// that forms a symbol's identity within its file.
pub open spec fn spec_ids_unique(symbols: Seq<SymbolV>) -> bool {
    forall|i: int, j: int|
        0 <= i < j < symbols.len() ==> !((#[trigger] symbols[i]).name == (
        #[trigger] symbols[j]).name && symbols[i].range.0 == symbols[j].range.0)
}

/// Checks that no two extracted symbols share (name, start line): the
/// within-file symbol identity is then collision-free.
pub fn symbol_ids_unique(p: &ParsingResult) -> (r: bool)
    ensures
        r == spec_ids_unique(p.symbols.deep_view()),
{
    let n = p.symbols.len();
    let mut i: usize = 0;
    while i < n
        invariant
            i <= n,
            n == p.symbols@.len(),
            forall|a: int, b: int|
                0 <= a < b < n && a < i ==> !((#[trigger] p.symbols.deep_view()[a]).name == (
                #[trigger] p.symbols.deep_view()[b]).name && p.symbols.deep_view()[a].range.0
                    == p.symbols.deep_view()[b].range.0),
        decreases n - i,
    {
        let mut j: usize = i + 1;
        while j < n
            invariant
                i < j <= n,
                n == p.symbols@.len(),
                forall|b: int|
                    i < b < j ==> !((#[trigger] p.symbols.deep_view()[b]).name == p.symbols
                        .deep_view()[i as int].name && p.symbols.deep_view()[b].range.0 == p
                        .symbols.deep_view()[i as int].range.0),
            decreases n - j,
        {
            if crate::tree::str_eq(p.symbols[i].name.as_str(), p.symbols[j].name.as_str())
                && p.symbols[i].range.0 == p.symbols[j].range.0 {
                proof {
                    assert(p.symbols.deep_view()[i as int] == p.symbols@[i as int].deep_view());
                    assert(p.symbols.deep_view()[j as int] == p.symbols@[j as int].deep_view());
                }
                return false;
            }
            proof {
                assert(p.symbols.deep_view()[i as int] == p.symbols@[i as int].deep_view());
                assert(p.symbols.deep_view()[j as int] == p.symbols@[j as int].deep_view());
            }
            j = j + 1;
        }
        i = i + 1;
    }
    true
}

} // verus!
