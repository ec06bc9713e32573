//! Language detection by file extension.
//!
//! A file name is classified into one of a fixed set of supported languages
//! by looking at the extension of its final path component; anything else is
//! `Language::Unknown`, which the extractor treats as "no facts", never as an
//! error.

use vstd::prelude::*;
use vstd::string::*;
use crate::text::{str_to_chars, range_eq_str};

verus! {

/// The languages the extractor understands.
#[derive(Debug, Clone, Copy, PartialEq, Eq, Structural)]
pub enum Language {
    Python,
    TypeScript,
    JavaScript,
    Rust,
    Go,
    Java,
    Cpp,
    Ruby,
    Php,
    Unknown,
}

/// Index of the last occurrence of `c` in `s`, or -1 if `c` does not occur.
pub open spec fn last_idx(s: Seq<char>, c: char) -> int
    decreases s.len(),
{
    if s.len() == 0 {
        -1
    } else if s.last() == c {
        s.len() - 1
    } else {
        last_idx(s.drop_last(), c)
    }
}

/// `last_idx` really is the last occurrence.
pub proof fn lemma_last_idx(s: Seq<char>, c: char)
    ensures
        last_idx(s, c) >= -1,
        last_idx(s, c) == -1 ==> forall|j: int| 0 <= j < s.len() ==> s[j] != c,
        last_idx(s, c) >= 0 ==> 0 <= last_idx(s, c) < s.len() && s[last_idx(s, c)] == c
            && forall|j: int| last_idx(s, c) < j < s.len() ==> s[j] != c,
    decreases s.len(),
{
    if s.len() > 0 && s.last() != c {
        lemma_last_idx(s.drop_last(), c);
        assert(forall|j: int| 0 <= j < s.len() - 1 ==> s[j] == s.drop_last()[j]);
    }
}

/// The extension of the final path component of `filename`: the part after
/// the last `'.'`, provided that dot is neither absent nor the leading
/// character of the component (a leading dot marks a hidden file, not an
/// extension).
pub open spec fn spec_extension(filename: Seq<char>) -> Option<Seq<char>> {
    let name = filename.subrange(last_idx(filename, '/') + 1, filename.len() as int);
    let d = last_idx(name, '.');
    if d <= 0 {
        None
    } else {
        Some(name.subrange(d + 1, name.len() as int))
    }
}

/// Which language a file name maps to.
pub open spec fn spec_detect_language(filename: Seq<char>) -> Language {
    match spec_extension(filename) {
        Option::None => Language::Unknown,
        Option::Some(e) => {
            if e == "py"@ || e == "pyw"@ {
                Language::Python
            } else if e == "ts"@ || e == "tsx"@ {
                Language::TypeScript
            } else if e == "js"@ || e == "jsx"@ || e == "mjs"@ || e == "cjs"@ {
                Language::JavaScript
            } else if e == "rs"@ {
                Language::Rust
            } else if e == "go"@ {
                Language::Go
            } else if e == "java"@ {
                Language::Java
            } else if e == "cpp"@ || e == "cxx"@ || e == "hpp"@ || e == "h"@ {
                Language::Cpp
            } else if e == "rb"@ {
                Language::Ruby
            } else if e == "php"@ {
                Language::Php
            } else {
                Language::Unknown
            }
        },
    }
}

/// Finds the index of the last occurrence of `c` in `v` at or after `from`,
/// as an `Option`.
pub fn rfind_from(v: &Vec<char>, from: usize, c: char) -> (r: Option<usize>)
    requires
        from <= v@.len(),
    ensures
        ({
            let d = last_idx(v@.subrange(from as int, v@.len() as int), c);
            match r {
                Option::None => d == -1,
                Option::Some(k) => from <= k < v@.len() && d == k - from,
            }
        }),
{
    proof {
        lemma_last_idx(v@.subrange(from as int, v@.len() as int), c);
    }
    let ghost sub = v@.subrange(from as int, v@.len() as int);
    let mut i: usize = v.len();
    while i > from
        invariant
            from <= i <= v@.len(),
            sub == v@.subrange(from as int, v@.len() as int),
            forall|j: int| i <= j < v@.len() ==> v@[j] != c,
        decreases i,
    {
        i = i - 1;
        if v[i] == c {
            proof {
                lemma_last_idx(sub, c);
                assert(v@[i as int] == c);
                assert(0 <= i - from < sub.len());
                assert(sub[i - from] == v@[i as int]);
                assert(sub[i - from] == c);
                let d = last_idx(sub, c);
                if d == -1 {
                    assert(sub[i - from] != c);
                }
                assert(forall|j: int| i - from < j < sub.len() ==> sub[j] == v@[j + from] && sub[j] != c);
                assert(d >= 0);
                assert(!(d > i - from)) by {
                    if d > i - from {
                        assert(sub[d] != c);
                    }
                }
                assert(!(d < i - from)) by {
                    if d < i - from {
                        assert(sub[i - from] != c);
                    }
                }
            }
            return Some(i);
        }
        proof {
            assert(sub[i - from] == v@[i as int]);
        }
    }
    proof {
        lemma_last_idx(sub, c);
        let d = last_idx(sub, c);
        if d >= 0 {
            assert(sub[d] == v@[d + from]);
        }
    }
    None
}

/// Detects the language of a file from its name, by extension.
pub fn detect_language(filename: &str) -> (lang: Language)
    ensures
        lang == spec_detect_language(filename@),
{
    let v = str_to_chars(filename);
    let n = v.len();
    let start = match rfind_from(&v, 0, '/') {
        Some(k) => k + 1,
        None => 0,
    };
    proof {
        assert(v@.subrange(0, v@.len() as int) =~= v@);
        assert(start == last_idx(v@, '/') + 1);
    }
    let ghost name = filename@.subrange(last_idx(filename@, '/') + 1, filename@.len() as int);
    let d = match rfind_from(&v, start, '.') {
        Some(k) => k,
        None => {
            proof {
                assert(last_idx(name, '.') == -1);
            }
            return Language::Unknown;
        },
    };
    if d == start {
        proof {
            assert(last_idx(name, '.') == 0);
        }
        return Language::Unknown;
    }
    proof {
        assert(last_idx(name, '.') == d - start);
        assert(name.subrange(d - start + 1, name.len() as int)
            =~= v@.subrange(d + 1, v@.len() as int));
    }
    proof {
        assert(d < n);
    }
    let lo = d + 1;
    let hi = n;
    if range_eq_str(&v, lo, hi, "py") || range_eq_str(&v, lo, hi, "pyw") {
        Language::Python
    } else if range_eq_str(&v, lo, hi, "ts") || range_eq_str(&v, lo, hi, "tsx") {
        Language::TypeScript
    } else if range_eq_str(&v, lo, hi, "js") || range_eq_str(&v, lo, hi, "jsx")
        || range_eq_str(&v, lo, hi, "mjs") || range_eq_str(&v, lo, hi, "cjs") {
        Language::JavaScript
    } else if range_eq_str(&v, lo, hi, "rs") {
        Language::Rust
    } else if range_eq_str(&v, lo, hi, "go") {
        Language::Go
    } else if range_eq_str(&v, lo, hi, "java") {
        Language::Java
    } else if range_eq_str(&v, lo, hi, "cpp") || range_eq_str(&v, lo, hi, "cxx")
        || range_eq_str(&v, lo, hi, "hpp") || range_eq_str(&v, lo, hi, "h") {
        Language::Cpp
    } else if range_eq_str(&v, lo, hi, "rb") {
        Language::Ruby
    } else if range_eq_str(&v, lo, hi, "php") {
        Language::Php
    } else {
        Language::Unknown
    }
}

/// The display name of a language, as stored on File nodes in the graph.
pub open spec fn spec_lang_name(lang: Language) -> Seq<char> {
    match lang {
        Language::Python => "Python"@,
        Language::TypeScript => "TypeScript"@,
        Language::JavaScript => "JavaScript"@,
        Language::Rust => "Rust"@,
        Language::Go => "Go"@,
        Language::Java => "Java"@,
        Language::Cpp => "Cpp"@,
        Language::Ruby => "Ruby"@,
        Language::Php => "Php"@,
        Language::Unknown => "Unknown"@,
    }
}

/// The display name of a language.
pub fn lang_name(lang: &Language) -> (r: String)
    ensures
        r@ == spec_lang_name(*lang),
{
    match lang {
        Language::Python => String::from_str("Python"),
        Language::TypeScript => String::from_str("TypeScript"),
        Language::JavaScript => String::from_str("JavaScript"),
        Language::Rust => String::from_str("Rust"),
        Language::Go => String::from_str("Go"),
        Language::Java => String::from_str("Java"),
        Language::Cpp => String::from_str("Cpp"),
        Language::Ruby => String::from_str("Ruby"),
        Language::Php => String::from_str("Php"),
        Language::Unknown => String::from_str("Unknown"),
    }
}

} // verus!
