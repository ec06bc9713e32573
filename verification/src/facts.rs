//! The structural facts the extractor produces for one file: symbols,
//! imports, exports.  These are plain data; their deep views are the spec
//! structures the extraction contracts are stated over.

use vstd::prelude::*;
use vstd::string::*;
use crate::lang::Language;

verus! {

/// One parameter of a function-like symbol.
#[derive(Debug, Clone)]
pub struct Param {
    pub name: String,
    pub type_annotation: Option<String>,
    pub default: Option<String>,
}

/// Spec view of a `Param`.
#[verifier::ext_equal]
pub ghost struct ParamV {
    pub name: Seq<char>,
    pub type_annotation: Option<Seq<char>>,
    pub default: Option<Seq<char>>,
}

impl DeepView for Param {
    type V = ParamV;

    open spec fn deep_view(&self) -> ParamV {
        ParamV {
            name: self.name@,
            type_annotation: self.type_annotation.deep_view(),
            default: self.default.deep_view(),
        }
    }
}

/// One extracted symbol: a function, method, or type-like declaration.
pub struct Symbol {
    pub name: String,
    pub kind: String,
    /// One-based start and end line.
    pub range: (usize, usize),
    pub content_preview: String,
    pub docstring: Option<String>,
    pub signature: Option<String>,
    pub params: Vec<Param>,
    pub return_type: Option<String>,
    pub visibility: Option<String>,
    pub parent_class: Option<String>,
    pub decorators: Vec<String>,
    pub calls: Vec<String>,
    pub bases: Vec<String>,
}

/// Spec view of a `Symbol`.
#[verifier::ext_equal]
pub ghost struct SymbolV {
    pub name: Seq<char>,
    pub kind: Seq<char>,
    pub range: (int, int),
    pub content_preview: Seq<char>,
    pub docstring: Option<Seq<char>>,
    pub signature: Option<Seq<char>>,
    pub params: Seq<ParamV>,
    pub return_type: Option<Seq<char>>,
    pub visibility: Option<Seq<char>>,
    pub parent_class: Option<Seq<char>>,
    pub decorators: Seq<Seq<char>>,
    pub calls: Seq<Seq<char>>,
    pub bases: Seq<Seq<char>>,
}

impl DeepView for Symbol {
    type V = SymbolV;

    open spec fn deep_view(&self) -> SymbolV {
        SymbolV {
            name: self.name@,
            kind: self.kind@,
            range: (self.range.0 as int, self.range.1 as int),
            content_preview: self.content_preview@,
            docstring: self.docstring.deep_view(),
            signature: self.signature.deep_view(),
            params: self.params.deep_view(),
            return_type: self.return_type.deep_view(),
            visibility: self.visibility.deep_view(),
            parent_class: self.parent_class.deep_view(),
            decorators: self.decorators.deep_view(),
            calls: self.calls.deep_view(),
            bases: self.bases.deep_view(),
        }
    }
}

/// One import found in a file.
#[derive(Debug, Clone)]
pub struct Import {
    /// The raw text of the import form.
    pub raw: String,
    /// The source module, when the language's import syntax names one.
    pub source: Option<String>,
    /// The imported names.
    pub names: Vec<String>,
}

/// Spec view of an `Import`.
#[verifier::ext_equal]
pub ghost struct ImportV {
    pub raw: Seq<char>,
    pub source: Option<Seq<char>>,
    pub names: Seq<Seq<char>>,
}

impl DeepView for Import {
    type V = ImportV;

    open spec fn deep_view(&self) -> ImportV {
        ImportV {
            raw: self.raw@,
            source: self.source.deep_view(),
            names: self.names.deep_view(),
        }
    }
}

/// The full output of the extractor for one file.
pub struct ParsingResult {
    pub language: Language,
    pub symbols: Vec<Symbol>,
    pub imports: Vec<Import>,
    pub exports: Vec<String>,
}

/// Spec view of a `ParsingResult`.
#[verifier::ext_equal]
pub ghost struct ParsingResultV {
    pub language: Language,
    pub symbols: Seq<SymbolV>,
    pub imports: Seq<ImportV>,
    pub exports: Seq<Seq<char>>,
}

impl DeepView for ParsingResult {
    type V = ParsingResultV;

    open spec fn deep_view(&self) -> ParsingResultV {
        ParsingResultV {
            language: self.language,
            symbols: self.symbols.deep_view(),
            imports: self.imports.deep_view(),
            exports: self.exports.deep_view(),
        }
    }
}

/// The error for a grammar or parse failure on a supported language:
/// fatal to that one file, never to the run.
#[derive(Debug, Clone, Copy, PartialEq, Eq, Structural)]
pub struct ExtractionError;

impl ExtractionError {
    /// A human-readable description of the error.
    pub fn message(&self) -> (r: String)
        ensures
            r@ == "parse failed for a supported language"@,
    {
        String::from_str("parse failed for a supported language")
    }
}

} // verus!
