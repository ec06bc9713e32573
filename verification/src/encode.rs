//! Deterministic encodings the ingestion engine stores: node identities,
//! decimal numbers, the compact JSON form of a parameter list, and the
//! comma-joined decorator list.

use vstd::prelude::*;
use vstd::string::*;
use crate::facts::{Param, ParamV};
use crate::text::{append_chars, append_str, chars_to_string, str_to_chars};

verus! {

/// The character for one decimal digit.
pub open spec fn spec_digit(d: int) -> char {
    if d == 0 {
        '0'
    } else if d == 1 {
        '1'
    } else if d == 2 {
        '2'
    } else if d == 3 {
        '3'
    } else if d == 4 {
        '4'
    } else if d == 5 {
        '5'
    } else if d == 6 {
        '6'
    } else if d == 7 {
        '7'
    } else if d == 8 {
        '8'
    } else {
        '9'
    }
}

/// The decimal digits of `n`, most significant first.
pub open spec fn spec_digits(n: int) -> Seq<char>
    decreases n,
{
    if n < 10 {
        seq![spec_digit(n)]
    } else {
        spec_digits(n / 10).push(spec_digit(n % 10))
    }
}

/// Writes one decimal digit.
fn digit_char(d: u64) -> (r: char)
    requires
        d < 10,
    ensures
        r == spec_digit(d as int),
{
    if d == 0 {
        '0'
    } else if d == 1 {
        '1'
    } else if d == 2 {
        '2'
    } else if d == 3 {
        '3'
    } else if d == 4 {
        '4'
    } else if d == 5 {
        '5'
    } else if d == 6 {
        '6'
    } else if d == 7 {
        '7'
    } else if d == 8 {
        '8'
    } else {
        '9'
    }
}

/// Writes `n` in decimal.
pub fn u64_to_chars(n: u64) -> (r: Vec<char>)
    ensures
        r@ == spec_digits(n as int),
    decreases n,
{
    if n < 10 {
        let mut r: Vec<char> = Vec::new();
        r.push(digit_char(n));
        proof {
            assert(r@ =~= seq![spec_digit(n as int)]);
        }
        r
    } else {
        let mut r = u64_to_chars(n / 10);
        r.push(digit_char(n % 10));
        r
    }
}

/// The identity of a file node: `repository :: path`.
pub open spec fn spec_file_id(repo: Seq<char>, path: Seq<char>) -> Seq<char> {
    repo + "::"@ + path
}

/// Builds the identity of a file node.
pub fn file_id_of(repo: &str, path: &str) -> (r: Vec<char>)
    ensures
        r@ == spec_file_id(repo@, path@),
{
    let mut r: Vec<char> = Vec::new();
    append_str(&mut r, repo);
    append_str(&mut r, "::");
    append_str(&mut r, path);
    r
}

/// The identity of a symbol node: `file_id :: name : start_line`.
pub open spec fn spec_symbol_id(file_id: Seq<char>, name: Seq<char>, start_line: int) -> Seq<
    char,
> {
    file_id + "::"@ + name + ":"@ + spec_digits(start_line)
}

/// Builds the identity of a symbol node.
pub fn symbol_id_of(file_id: &Vec<char>, name: &str, start_line: u64) -> (r: Vec<char>)
    ensures
        r@ == spec_symbol_id(file_id@, name@, start_line as int),
{
    let mut r: Vec<char> = Vec::new();
    append_chars(&mut r, file_id);
    append_str(&mut r, "::");
    append_str(&mut r, name);
    append_str(&mut r, ":");
    let ds = u64_to_chars(start_line);
    append_chars(&mut r, &ds);
    r
}

/// The hexadecimal character for a value below 16, lower case.
pub open spec fn spec_hex(d: int) -> char {
    if d < 10 {
        spec_digit(d)
    } else if d == 10 {
        'a'
    } else if d == 11 {
        'b'
    } else if d == 12 {
        'c'
    } else if d == 13 {
        'd'
    } else if d == 14 {
        'e'
    } else {
        'f'
    }
}

/// The JSON escape of one character, as a compact JSON serializer writes
/// it: quote, backslash and the named controls get a two-character escape,
/// other controls a `\u00XX` escape, everything else stands for itself.
pub open spec fn spec_esc_char(c: char) -> Seq<char> {
    if c == '"' {
        seq!['\\', '"']
    } else if c == '\\' {
        seq!['\\', '\\']
    } else if c == '\u{8}' {
        seq!['\\', 'b']
    } else if c == '\t' {
        seq!['\\', 't']
    } else if c == '\n' {
        seq!['\\', 'n']
    } else if c == '\u{c}' {
        seq!['\\', 'f']
    } else if c == '\r' {
        seq!['\\', 'r']
    } else if (c as u32) < 0x20 {
        seq!['\\', 'u', '0', '0', spec_hex((c as u32) as int / 16), spec_hex((c as u32) as int % 16)]
    } else {
        seq![c]
    }
}

/// The JSON escape of a whole string body.
pub open spec fn spec_escape(s: Seq<char>) -> Seq<char>
    decreases s.len(),
{
    if s.len() == 0 {
        Seq::empty()
    } else {
        spec_escape(s.subrange(0, s.len() - 1)) + spec_esc_char(s[s.len() - 1])
    }
}

/// A JSON string literal: the escaped body in quotes.
pub open spec fn spec_json_string(s: Seq<char>) -> Seq<char> {
    seq!['"'] + spec_escape(s) + seq!['"']
}

/// An optional string as JSON: a string literal or `null`.
pub open spec fn spec_json_opt(s: Option<Seq<char>>) -> Seq<char> {
    match s {
        Option::Some(v) => spec_json_string(v),
        Option::None => "null"@,
    }
}

/// One parameter as a JSON object, fields in declaration order.
pub open spec fn spec_json_param(p: ParamV) -> Seq<char> {
    "{\"name\":"@ + spec_json_string(p.name) + ",\"type_annotation\":"@ + spec_json_opt(
        p.type_annotation,
    ) + ",\"default\":"@ + spec_json_opt(p.default) + "}"@
}

/// The objects of a parameter list, comma separated.
pub open spec fn spec_json_params_body(ps: Seq<ParamV>) -> Seq<char>
    decreases ps.len(),
{
    if ps.len() == 0 {
        Seq::empty()
    } else if ps.len() == 1 {
        spec_json_param(ps[0])
    } else {
        spec_json_params_body(ps.subrange(0, ps.len() - 1)) + ","@ + spec_json_param(
            ps[ps.len() - 1],
        )
    }
}

/// A parameter list as a compact JSON array.
pub open spec fn spec_json_params(ps: Seq<ParamV>) -> Seq<char> {
    "["@ + spec_json_params_body(ps) + "]"@
}

/// Escapes one character onto `out`.
fn push_esc_char(out: &mut Vec<char>, c: char)
    ensures
        final(out)@ == old(out)@ + spec_esc_char(c),
{
    if c == '"' {
        out.push('\\');
        out.push('"');
        proof {
            assert(out@ =~= old(out)@ + spec_esc_char(c));
        }
    } else if c == '\\' {
        out.push('\\');
        out.push('\\');
        proof {
            assert(out@ =~= old(out)@ + spec_esc_char(c));
        }
    } else if c == '\u{8}' {
        out.push('\\');
        out.push('b');
        proof {
            assert(out@ =~= old(out)@ + spec_esc_char(c));
        }
    } else if c == '\t' {
        out.push('\\');
        out.push('t');
        proof {
            assert(out@ =~= old(out)@ + spec_esc_char(c));
        }
    } else if c == '\n' {
        out.push('\\');
        out.push('n');
        proof {
            assert(out@ =~= old(out)@ + spec_esc_char(c));
        }
    } else if c == '\u{c}' {
        out.push('\\');
        out.push('f');
        proof {
            assert(out@ =~= old(out)@ + spec_esc_char(c));
        }
    } else if c == '\r' {
        out.push('\\');
        out.push('r');
        proof {
            assert(out@ =~= old(out)@ + spec_esc_char(c));
        }
    } else {
        let u = c as u32;
        if u < 0x20 {
            out.push('\\');
            out.push('u');
            out.push('0');
            out.push('0');
            out.push(hex_char((u / 16) as u64));
            out.push(hex_char((u % 16) as u64));
            proof {
                assert(out@ =~= old(out)@ + spec_esc_char(c));
            }
        } else {
            out.push(c);
            proof {
                assert(out@ =~= old(out)@ + spec_esc_char(c));
            }
        }
    }
}

/// Writes one hexadecimal digit, lower case.
fn hex_char(d: u64) -> (r: char)
    requires
        d < 16,
    ensures
        r == spec_hex(d as int),
{
    if d < 10 {
        digit_char(d)
    } else if d == 10 {
        'a'
    } else if d == 11 {
        'b'
    } else if d == 12 {
        'c'
    } else if d == 13 {
        'd'
    } else if d == 14 {
        'e'
    } else {
        'f'
    }
}

/// Appends a JSON string literal for `s` onto `out`.
fn push_json_string(out: &mut Vec<char>, s: &str)
    ensures
        final(out)@ == old(out)@ + spec_json_string(s@),
{
    out.push('"');
    let chars = str_to_chars(s);
    let n = chars.len();
    let mut i: usize = 0;
    while i < n
        invariant
            i <= n,
            n == chars@.len(),
            chars@ == s@,
            out@ == old(out)@ + seq!['"'] + spec_escape(s@.subrange(0, i as int)),
        decreases n - i,
    {
        push_esc_char(out, chars[i]);
        proof {
            let k = i as int;
            assert(s@.subrange(0, k + 1).subrange(0, k) =~= s@.subrange(0, k));
            assert(s@.subrange(0, k + 1)[k] == s@[k]);
        }
        i = i + 1;
    }
    out.push('"');
    proof {
        assert(s@.subrange(0, n as int) =~= s@);
        assert(out@ =~= old(out)@ + spec_json_string(s@));
    }
}

/// Appends the JSON of an optional string onto `out`.
fn push_json_opt(out: &mut Vec<char>, s: &Option<String>)
    ensures
        final(out)@ == old(out)@ + spec_json_opt(s.deep_view()),
{
    match s {
        Some(v) => push_json_string(out, v.as_str()),
        None => append_str(out, "null"),
    }
}

/// Encodes a parameter list as compact JSON, as the graph stores it.
pub fn params_json(ps: &Vec<Param>) -> (r: String)
    ensures
        r@ == spec_json_params(ps.deep_view()),
{
    let mut out: Vec<char> = Vec::new();
    append_str(&mut out, "[");
    let n = ps.len();
    let ghost dv = ps.deep_view();
    let mut i: usize = 0;
    while i < n
        invariant
            i <= n,
            n == ps@.len(),
            dv == ps.deep_view(),
            out@ == "["@ + spec_json_params_body(dv.subrange(0, i as int)),
        decreases n - i,
    {
        if i > 0 {
            append_str(&mut out, ",");
        }
        append_str(&mut out, "{\"name\":");
        push_json_string(&mut out, ps[i].name.as_str());
        append_str(&mut out, ",\"type_annotation\":");
        push_json_opt(&mut out, &ps[i].type_annotation);
        append_str(&mut out, ",\"default\":");
        push_json_opt(&mut out, &ps[i].default);
        append_str(&mut out, "}");
        proof {
            let k = i as int;
            assert(dv[k] == ps@[k].deep_view());
            assert(dv.subrange(0, k + 1).subrange(0, k) =~= dv.subrange(0, k));
            assert(dv.subrange(0, k + 1)[k] == dv[k]);
            if k == 0 {
                assert(out@ =~= "["@ + spec_json_params_body(dv.subrange(0, 1)));
            } else {
                assert(out@ =~= "["@ + spec_json_params_body(dv.subrange(0, k + 1)));
            }
        }
        i = i + 1;
    }
    append_str(&mut out, "]");
    proof {
        assert(dv.subrange(0, n as int) =~= dv);
        assert(out@ =~= spec_json_params(dv));
    }
    chars_to_string(&out)
}

/// The decorator list joined with `", "`, as the graph stores it.
pub open spec fn spec_join_comma(parts: Seq<Seq<char>>) -> Seq<char>
    decreases parts.len(),
{
    if parts.len() == 0 {
        Seq::empty()
    } else if parts.len() == 1 {
        parts[0]
    } else {
        spec_join_comma(parts.subrange(0, parts.len() - 1)) + ", "@ + parts[parts.len() - 1]
    }
}

/// Joins strings with `", "`.
pub fn join_comma(parts: &Vec<String>) -> (r: String)
    ensures
        r@ == spec_join_comma(parts.deep_view()),
{
    let n = parts.len();
    let ghost dv = parts.deep_view();
    let mut out: Vec<char> = Vec::new();
    let mut i: usize = 0;
    while i < n
        invariant
            i <= n,
            n == parts@.len(),
            dv == parts.deep_view(),
            out@ == spec_join_comma(dv.subrange(0, i as int)),
        decreases n - i,
    {
        if i > 0 {
            append_str(&mut out, ", ");
        }
        append_str(&mut out, parts[i].as_str());
        proof {
            let k = i as int;
            assert(dv[k] == parts@[k]@);
            assert(dv.subrange(0, k + 1).subrange(0, k) =~= dv.subrange(0, k));
            assert(dv.subrange(0, k + 1)[k] == dv[k]);
            if k == 0 {
                assert(out@ =~= spec_join_comma(dv.subrange(0, 1)));
            } else {
                assert(out@ =~= spec_join_comma(dv.subrange(0, k + 1)));
            }
        }
        i = i + 1;
    }
    proof {
        assert(dv.subrange(0, n as int) =~= dv);
    }
    chars_to_string(&out)
}

} // verus!
