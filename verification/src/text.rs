//! Character-level utilities shared by the extractor and the ingestion
//! engine.  All text is handled as sequences of `char`; the specifications
//! speak about `Seq<char>` views throughout.

use vstd::prelude::*;
use vstd::string::*;

verus! {

/// Copies the characters of a string slice into a vector.
pub fn str_to_chars(s: &str) -> (r: Vec<char>)
    ensures
        r@ == s@,
{
    let n = s.unicode_len();
    let mut r: Vec<char> = Vec::new();
    let mut i: usize = 0;
    while i < n
        invariant
            i <= n,
            n == s@.len(),
            r@ == s@.take(i as int),
        decreases n - i,
    {
        let c = s.get_char(i);
        r.push(c);
        proof {
            assert(s@.take(i + 1) =~= s@.take(i as int).push(s@[i as int]));
        }
        i = i + 1;
    }
    proof {
        assert(s@.take(n as int) =~= s@);
    }
    r
}

/// Relies on `String: FromIterator<char>`: collecting an iterator of
/// characters yields the string of exactly those characters, in order.
#[verifier::external_body]
pub fn chars_to_string(v: &Vec<char>) -> (s: String)
    ensures
        s@ == v@,
{
    v.iter().collect()
}

/// Compares the range `[lo, hi)` of a character vector against a string
/// slice.
pub fn range_eq_str(v: &Vec<char>, lo: usize, hi: usize, lit: &str) -> (r: bool)
    requires
        lo <= hi <= v@.len(),
    ensures
        r == (v@.subrange(lo as int, hi as int) == lit@),
{
    let n = lit.unicode_len();
    if n != hi - lo {
        proof {
            assert(v@.subrange(lo as int, hi as int).len() == hi - lo);
        }
        return false;
    }
    let mut i: usize = 0;
    while i < n
        invariant
            i <= n,
            n == lit@.len(),
            n == hi - lo,
            lo <= hi <= v@.len(),
            forall|j: int| 0 <= j < i ==> v@.subrange(lo as int, hi as int)[j] == lit@[j],
        decreases n - i,
    {
        if v[lo + i] != lit.get_char(i) {
            proof {
                assert(v@.subrange(lo as int, hi as int)[i as int] == v@[lo + i]);
            }
            return false;
        }
        i = i + 1;
    }
    proof {
        assert(v@.subrange(lo as int, hi as int) =~= lit@);
    }
    true
}

/// Copies the range `[lo, hi)` of a character vector.
pub fn copy_range(v: &Vec<char>, lo: usize, hi: usize) -> (r: Vec<char>)
    requires
        lo <= hi <= v@.len(),
    ensures
        r@ == v@.subrange(lo as int, hi as int),
{
    let mut r: Vec<char> = Vec::new();
    let mut i: usize = lo;
    while i < hi
        invariant
            lo <= i <= hi <= v@.len(),
            r@ == v@.subrange(lo as int, i as int),
        decreases hi - i,
    {
        r.push(v[i]);
        proof {
            assert(v@.subrange(lo as int, i + 1) =~= v@.subrange(lo as int, i as int).push(
                v@[i as int],
            ));
        }
        i = i + 1;
    }
    r
}

/// Appends the contents of `src` to `acc`.
pub fn append_chars(acc: &mut Vec<char>, src: &Vec<char>)
    ensures
        final(acc)@ == old(acc)@ + src@,
{
    let n = src.len();
    let mut i: usize = 0;
    while i < n
        invariant
            i <= n,
            n == src@.len(),
            acc@ == old(acc)@ + src@.take(i as int),
        decreases n - i,
    {
        acc.push(src[i]);
        proof {
            assert(old(acc)@ + src@.take(i + 1) =~= (old(acc)@ + src@.take(i as int)).push(
                src@[i as int],
            ));
        }
        i = i + 1;
    }
    proof {
        assert(src@.take(n as int) =~= src@);
    }
}

/// Appends the characters of the string slice `s` to `acc`.
pub fn append_str(acc: &mut Vec<char>, s: &str)
    ensures
        final(acc)@ == old(acc)@ + s@,
{
    let n = s.unicode_len();
    let mut i: usize = 0;
    while i < n
        invariant
            i <= n,
            n == s@.len(),
            acc@ == old(acc)@ + s@.take(i as int),
        decreases n - i,
    {
        acc.push(s.get_char(i));
        proof {
            assert(old(acc)@ + s@.take(i + 1) =~= (old(acc)@ + s@.take(i as int)).push(
                s@[i as int],
            ));
        }
        i = i + 1;
    }
    proof {
        assert(s@.take(n as int) =~= s@);
    }
}

/// The whitespace characters the extractor trims: the ASCII ones.
pub open spec fn is_space(c: char) -> bool {
    c == ' ' || c == '\t' || c == '\n' || c == '\r' || c == '\u{b}' || c == '\u{c}'
}

/// Whether `c` is trimmed as whitespace.
pub fn is_space_c(c: char) -> (r: bool)
    ensures
        r == is_space(c),
{
    c == ' ' || c == '\t' || c == '\n' || c == '\r' || c == '\u{b}' || c == '\u{c}'
}

/// Index of the first occurrence of `c` in `s`, or -1.
pub open spec fn first_idx(s: Seq<char>, c: char) -> int
    decreases s.len(),
{
    if s.len() == 0 {
        -1
    } else if s[0] == c {
        0
    } else {
        let r = first_idx(s.drop_first(), c);
        if r == -1 {
            -1
        } else {
            r + 1
        }
    }
}

/// `first_idx` really is the first occurrence.
pub proof fn lemma_first_idx(s: Seq<char>, c: char)
    ensures
        first_idx(s, c) >= -1,
        first_idx(s, c) == -1 ==> forall|j: int| 0 <= j < s.len() ==> s[j] != c,
        first_idx(s, c) >= 0 ==> {
            let i = first_idx(s, c);
            &&& 0 <= i < s.len()
            &&& s[i] == c
            &&& forall|j: int| 0 <= j < i ==> s[j] != c
        },
    decreases s.len(),
{
    if s.len() > 0 && s[0] != c {
        lemma_first_idx(s.drop_first(), c);
        let t = s.drop_first();
        let r = first_idx(t, c);
        assert(forall|j: int| 0 <= j < t.len() ==> #[trigger] t[j] == s[j + 1]);
        if r == -1 {
            assert forall|j: int| 0 <= j < s.len() implies s[j] != c by {
                if j > 0 {
                    assert(s[j] == t[j - 1]);
                }
            }
        } else {
            assert(s[r + 1] == t[r]);
            assert forall|j: int| 0 <= j < r + 1 implies s[j] != c by {
                if j > 0 {
                    assert(s[j] == t[j - 1]);
                }
            }
        }
    }
}

/// Finds the first occurrence of `c` in `v`.
pub fn find_char(v: &Vec<char>, c: char) -> (r: Option<usize>)
    ensures
        match r {
            Option::None => first_idx(v@, c) == -1,
            Option::Some(i) => i < v@.len() && first_idx(v@, c) == i,
        },
{
    proof {
        lemma_first_idx(v@, c);
    }
    let n = v.len();
    let mut i: usize = 0;
    while i < n
        invariant
            i <= n,
            n == v@.len(),
            forall|j: int| 0 <= j < i ==> v@[j] != c,
        decreases n - i,
    {
        if v[i] == c {
            proof {
                let d = first_idx(v@, c);
                if d < i {
                    assert(v@[d] != c);
                }
                if d > i {
                    assert(v@[i as int] != c);
                }
            }
            return Some(i);
        }
        i = i + 1;
    }
    None
}

/// Whether `p` is a prefix of `s`.
pub open spec fn spec_starts_with(s: Seq<char>, p: Seq<char>) -> bool {
    p.len() <= s.len() && s.take(p.len() as int) == p
}

/// Whether `p` is a suffix of `s`.
pub open spec fn spec_ends_with(s: Seq<char>, p: Seq<char>) -> bool {
    p.len() <= s.len() && s.skip(s.len() - p.len()) == p
}

/// Whether `v` starts with the string slice `p`.
pub fn starts_with(v: &Vec<char>, p: &str) -> (r: bool)
    ensures
        r == spec_starts_with(v@, p@),
{
    let n = p.unicode_len();
    if n > v.len() {
        return false;
    }
    range_eq_str(v, 0, n, p)
}

/// Whether `v` ends with the string slice `p`.
pub fn ends_with(v: &Vec<char>, p: &str) -> (r: bool)
    ensures
        r == spec_ends_with(v@, p@),
{
    let n = p.unicode_len();
    if n > v.len() {
        return false;
    }
    proof {
        assert(v@.subrange(v@.len() - n, v@.len() as int) =~= v@.skip(v@.len() - n));
    }
    range_eq_str(v, v.len() - n, v.len(), p)
}

/// `s` with every leading repetition of the non-empty pattern `p` removed.
pub open spec fn spec_trim_start_matches(s: Seq<char>, p: Seq<char>) -> Seq<char>
    decreases s.len(),
{
    if p.len() > 0 && spec_starts_with(s, p) {
        spec_trim_start_matches(s.skip(p.len() as int), p)
    } else {
        s
    }
}

/// `s` with every trailing repetition of the non-empty pattern `p` removed.
pub open spec fn spec_trim_end_matches(s: Seq<char>, p: Seq<char>) -> Seq<char>
    decreases s.len(),
{
    if p.len() > 0 && spec_ends_with(s, p) {
        spec_trim_end_matches(s.take(s.len() - p.len()), p)
    } else {
        s
    }
}

/// Strips every leading repetition of `p` from `v`.
pub fn trim_start_matches(v: &Vec<char>, p: &str) -> (r: Vec<char>)
    ensures
        r@ == spec_trim_start_matches(v@, p@),
    decreases v@.len(),
{
    let n = p.unicode_len();
    if n > 0 && starts_with(v, p) {
        let rest = copy_range(v, n, v.len());
        proof {
            assert(rest@ =~= v@.skip(n as int));
        }
        trim_start_matches(&rest, p)
    } else {
        copy_range(v, 0, v.len())
    }
}

/// Strips every trailing repetition of `p` from `v`.
pub fn trim_end_matches(v: &Vec<char>, p: &str) -> (r: Vec<char>)
    ensures
        r@ == spec_trim_end_matches(v@, p@),
    decreases v@.len(),
{
    let n = p.unicode_len();
    if n > 0 && ends_with(v, p) {
        let rest = copy_range(v, 0, v.len() - n);
        proof {
            assert(rest@ =~= v@.take(v@.len() - n as int));
        }
        trim_end_matches(&rest, p)
    } else {
        copy_range(v, 0, v.len())
    }
}

/// `s` with leading whitespace removed.
pub open spec fn spec_trim_start(s: Seq<char>) -> Seq<char>
    decreases s.len(),
{
    if s.len() > 0 && is_space(s[0]) {
        spec_trim_start(s.drop_first())
    } else {
        s
    }
}

/// `s` with trailing whitespace removed.
pub open spec fn spec_trim_end(s: Seq<char>) -> Seq<char>
    decreases s.len(),
{
    if s.len() > 0 && is_space(s.last()) {
        spec_trim_end(s.drop_last())
    } else {
        s
    }
}

/// `s` with whitespace removed from both ends.
pub open spec fn spec_trim(s: Seq<char>) -> Seq<char> {
    spec_trim_end(spec_trim_start(s))
}

/// Strips leading whitespace.
pub fn trim_start(v: &Vec<char>) -> (r: Vec<char>)
    ensures
        r@ == spec_trim_start(v@),
    decreases v@.len(),
{
    if v.len() > 0 && is_space_c(v[0]) {
        let rest = copy_range(v, 1, v.len());
        proof {
            assert(rest@ =~= v@.drop_first());
        }
        trim_start(&rest)
    } else {
        copy_range(v, 0, v.len())
    }
}

/// Strips trailing whitespace.
pub fn trim_end(v: &Vec<char>) -> (r: Vec<char>)
    ensures
        r@ == spec_trim_end(v@),
    decreases v@.len(),
{
    if v.len() > 0 && is_space_c(v[v.len() - 1]) {
        let rest = copy_range(v, 0, v.len() - 1);
        proof {
            assert(rest@ =~= v@.drop_last());
        }
        trim_end(&rest)
    } else {
        copy_range(v, 0, v.len())
    }
}

/// Strips whitespace from both ends.
pub fn trim(v: &Vec<char>) -> (r: Vec<char>)
    ensures
        r@ == spec_trim(v@),
{
    let t = trim_start(v);
    trim_end(&t)
}

/// `s` with every leading character that occurs in `set` removed.
pub open spec fn spec_trim_start_in(s: Seq<char>, set: Seq<char>) -> Seq<char>
    decreases s.len(),
{
    if s.len() > 0 && set.contains(s[0]) {
        spec_trim_start_in(s.drop_first(), set)
    } else {
        s
    }
}

/// `s` with every trailing character that occurs in `set` removed.
pub open spec fn spec_trim_end_in(s: Seq<char>, set: Seq<char>) -> Seq<char>
    decreases s.len(),
{
    if s.len() > 0 && set.contains(s.last()) {
        spec_trim_end_in(s.drop_last(), set)
    } else {
        s
    }
}

/// `s` with characters from `set` removed from both ends.
pub open spec fn spec_trim_in(s: Seq<char>, set: Seq<char>) -> Seq<char> {
    spec_trim_end_in(spec_trim_start_in(s, set), set)
}

/// Whether `c` occurs in the string slice `set`.
pub fn char_in(c: char, set: &str) -> (r: bool)
    ensures
        r == set@.contains(c),
{
    let n = set.unicode_len();
    let mut i: usize = 0;
    while i < n
        invariant
            i <= n,
            n == set@.len(),
            forall|j: int| 0 <= j < i ==> set@[j] != c,
        decreases n - i,
    {
        if set.get_char(i) == c {
            return true;
        }
        i = i + 1;
    }
    proof {
        if set@.contains(c) {
            let w = choose|w: int| 0 <= w < set@.len() && set@[w] == c;
            assert(set@[w] != c);
        }
    }
    false
}

/// Strips every leading character of `v` that occurs in `set`.
pub fn trim_start_in(v: &Vec<char>, set: &str) -> (r: Vec<char>)
    ensures
        r@ == spec_trim_start_in(v@, set@),
    decreases v@.len(),
{
    if v.len() > 0 && char_in(v[0], set) {
        let rest = copy_range(v, 1, v.len());
        proof {
            assert(rest@ =~= v@.drop_first());
        }
        trim_start_in(&rest, set)
    } else {
        copy_range(v, 0, v.len())
    }
}

/// Strips every trailing character of `v` that occurs in `set`.
pub fn trim_end_in(v: &Vec<char>, set: &str) -> (r: Vec<char>)
    ensures
        r@ == spec_trim_end_in(v@, set@),
    decreases v@.len(),
{
    if v.len() > 0 && char_in(v[v.len() - 1], set) {
        let rest = copy_range(v, 0, v.len() - 1);
        proof {
            assert(rest@ =~= v@.drop_last());
        }
        trim_end_in(&rest, set)
    } else {
        copy_range(v, 0, v.len())
    }
}

/// Strips characters of `set` from both ends of `v`.
pub fn trim_in(v: &Vec<char>, set: &str) -> (r: Vec<char>)
    ensures
        r@ == spec_trim_in(v@, set@),
{
    let t = trim_start_in(v, set);
    trim_end_in(&t, set)
}

/// Index of the first occurrence of the non-empty `sub` in `s`, or -1.
pub open spec fn find_sub(s: Seq<char>, sub: Seq<char>) -> int
    decreases s.len(),
{
    if sub.len() > s.len() {
        -1
    } else if s.take(sub.len() as int) == sub {
        0
    } else if s.len() == 0 {
        -1
    } else {
        let r = find_sub(s.drop_first(), sub);
        if r == -1 {
            -1
        } else {
            r + 1
        }
    }
}

/// Finds the first occurrence of `sub` in `v`.
pub fn find_str(v: &Vec<char>, sub: &str) -> (r: Option<usize>)
    ensures
        match r {
            Option::None => find_sub(v@, sub@) == -1,
            Option::Some(i) => i + sub@.len() <= v@.len() && find_sub(v@, sub@) == i,
        },
    decreases v@.len(),
{
    let n = sub.unicode_len();
    if n > v.len() {
        return None;
    }
    if range_eq_str(v, 0, n, sub) {
        return Some(0);
    }
    if v.len() == 0 {
        return None;
    }
    let rest = copy_range(v, 1, v.len());
    proof {
        assert(rest@ =~= v@.drop_first());
    }
    match find_str(&rest, sub) {
        None => None,
        Some(i) => Some(i + 1),
    }
}

/// The parts of `s` split at every occurrence of `c`; empty parts kept.
pub open spec fn spec_split_char(s: Seq<char>, c: char) -> Seq<Seq<char>>
    decreases s.len(),
{
    let i = first_idx(s, c);
    if i < 0 || i >= s.len() {
        seq![s]
    } else {
        seq![s.take(i)] + spec_split_char(s.skip(i + 1), c)
    }
}

/// Splits `v` at every occurrence of `c`.
pub fn split_char(v: &Vec<char>, c: char) -> (r: Vec<Vec<char>>)
    ensures
        r.deep_view() == spec_split_char(v@, c),
    decreases v@.len(),
{
    proof {
        lemma_first_idx(v@, c);
    }
    let n = v.len();
    match find_char(v, c) {
        None => {
            let mut r: Vec<Vec<char>> = Vec::new();
            r.push(copy_range(v, 0, n));
            proof {
                assert(r.deep_view() =~~= spec_split_char(v@, c));
            }
            r
        },
        Some(i) => {
            let head = copy_range(v, 0, i);
            let tail = copy_range(v, i + 1, n);
            proof {
                assert(tail@ =~= v@.skip(i + 1));
            }
            let mut rest = split_char(&tail, c);
            let mut r: Vec<Vec<char>> = Vec::new();
            r.push(head);
            let ghost rest_view = rest.deep_view();
            r.append(&mut rest);
            proof {
                assert(r.deep_view() =~~= seq![v@.take(i as int)] + rest_view);
                assert(seq![v@.take(i as int)] + rest_view =~~= spec_split_char(v@, c));
            }
            r
        },
    }
}

/// `s` split at the first occurrence of `sep`: the part before, and the
/// part after if `sep` occurs at all.
pub open spec fn spec_split2(s: Seq<char>, sep: Seq<char>) -> (Seq<char>, Option<Seq<char>>) {
    let i = find_sub(s, sep);
    if i == -1 {
        (s, Option::None)
    } else {
        (s.take(i), Option::Some(s.skip(i + sep.len())))
    }
}

/// Splits `v` at the first occurrence of `sep`.
pub fn split2(v: &Vec<char>, sep: &str) -> (r: (Vec<char>, Option<Vec<char>>))
    ensures
        r.0@ == spec_split2(v@, sep@).0,
        match r.1 {
            Option::None => spec_split2(v@, sep@).1 is None,
            Option::Some(t) => spec_split2(v@, sep@).1 == Option::Some(t@),
        },
{
    let n = v.len();
    match find_str(v, sep) {
        None => (copy_range(v, 0, n), None),
        Some(i) => {
            let after = copy_range(v, i + sep.unicode_len(), n);
            proof {
                assert(after@ =~= v@.skip(find_sub(v@, sep@) + sep@.len()));
            }
            (copy_range(v, 0, i), Some(after))
        },
    }
}

/// `s` with every occurrence of the non-empty `from` replaced by `to`,
/// left to right, non-overlapping.
pub open spec fn spec_replace(s: Seq<char>, from: Seq<char>, to: Seq<char>) -> Seq<char>
    decreases s.len(),
{
    let i = find_sub(s, from);
    if from.len() == 0 || i < 0 || i + from.len() > s.len() {
        s
    } else {
        s.take(i) + to + spec_replace(s.skip(i + from.len()), from, to)
    }
}

/// Replaces every occurrence of `from` in `v` by `to`, left to right.
pub fn replace_str(v: &Vec<char>, from: &str, to: &str) -> (r: Vec<char>)
    requires
        from@.len() > 0,
    ensures
        r@ == spec_replace(v@, from@, to@),
    decreases v@.len(),
{
    let n = v.len();
    match find_str(v, from) {
        None => copy_range(v, 0, n),
        Some(i) => {
            let flen = from.unicode_len();
            let tail = copy_range(v, i + flen, n);
            proof {
                assert(tail@ =~= v@.skip(i + from@.len()));
            }
            let rest = replace_str(&tail, from, to);
            let mut r = copy_range(v, 0, i);
            append_str(&mut r, to);
            append_chars(&mut r, &rest);
            proof {
                assert(r@ =~= v@.take(i as int) + to@ + spec_replace(
                    v@.skip(i + from@.len()),
                    from@,
                    to@,
                ));
            }
            r
        },
    }
}

/// Each part of `s`, trimmed of surrounding whitespace.
pub open spec fn spec_trim_each(s: Seq<Seq<char>>) -> Seq<Seq<char>>
    decreases s.len(),
{
    if s.len() == 0 {
        Seq::empty()
    } else {
        spec_trim_each(s.subrange(0, s.len() - 1)) + seq![spec_trim(s[s.len() - 1])]
    }
}

/// Trims every part of `v`.
pub fn trim_each(v: &Vec<Vec<char>>) -> (r: Vec<Vec<char>>)
    ensures
        r.deep_view() == spec_trim_each(v.deep_view()),
{
    let n = v.len();
    let mut r: Vec<Vec<char>> = Vec::new();
    let ghost dv = v.deep_view();
    while r.len() < n
        invariant
            r@.len() <= n,
            n == v@.len(),
            dv == v.deep_view(),
            r.deep_view() == spec_trim_each(dv.subrange(0, r@.len() as int)),
        decreases n - r@.len(),
    {
        let i = r.len();
        let ghost rprev = r.deep_view();
        let t = trim(&v[i]);
        r.push(t);
        proof {
            let k = i as int;
            assert(dv[k] =~~= v@[k]@);
            assert(r.deep_view() =~~= rprev.push(spec_trim(dv[k])));
            assert(dv.subrange(0, k + 1).subrange(0, k) =~= dv.subrange(0, k));
            assert(dv.subrange(0, k + 1)[k] == dv[k]);
            assert(r.deep_view() =~~= spec_trim_each(dv.subrange(0, k + 1)));
        }
    }
    proof {
        assert(dv.subrange(0, n as int) =~= dv);
    }
    r
}

/// The parts of `s` that are non-empty, in order.
pub open spec fn spec_keep_nonempty(s: Seq<Seq<char>>) -> Seq<Seq<char>>
    decreases s.len(),
{
    if s.len() == 0 {
        Seq::empty()
    } else {
        spec_keep_nonempty(s.subrange(0, s.len() - 1)) + if s[s.len() - 1].len() > 0 {
            seq![s[s.len() - 1]]
        } else {
            Seq::empty()
        }
    }
}

/// Keeps the non-empty parts of `v`.
pub fn keep_nonempty(v: Vec<Vec<char>>) -> (r: Vec<Vec<char>>)
    ensures
        r.deep_view() == spec_keep_nonempty(v.deep_view()),
{
    let n = v.len();
    let mut r: Vec<Vec<char>> = Vec::new();
    let ghost dv = v.deep_view();
    let mut i: usize = 0;
    while i < n
        invariant
            i <= n,
            n == v@.len(),
            dv == v.deep_view(),
            r.deep_view() == spec_keep_nonempty(dv.subrange(0, i as int)),
        decreases n - i,
    {
        let ghost rprev = r.deep_view();
        proof {
            assert(dv[i as int] =~~= v@[i as int]@);
        }
        if v[i].len() > 0 {
            r.push(copy_range(&v[i], 0, v[i].len()));
            proof {
                assert(v@[i as int]@.subrange(0, v@[i as int]@.len() as int) =~= v@[i as int]@);
            }
        }
        proof {
            let k = i as int;
            assert(dv.subrange(0, k + 1).subrange(0, k) =~= dv.subrange(0, k));
            assert(dv.subrange(0, k + 1)[k] == dv[k]);
            if dv[k].len() > 0 {
                assert(r.deep_view() =~~= rprev.push(dv[k]));
            }
            assert(r.deep_view() =~~= spec_keep_nonempty(dv.subrange(0, k + 1)));
        }
        i = i + 1;
    }
    proof {
        assert(dv.subrange(0, n as int) =~= dv);
    }
    r
}

/// Converts each character vector into a `String`.
pub fn to_strings(v: &Vec<Vec<char>>) -> (r: Vec<String>)
    ensures
        r.deep_view() == v.deep_view(),
{
    let n = v.len();
    let mut r: Vec<String> = Vec::new();
    while r.len() < n
        invariant
            r@.len() <= n,
            n == v@.len(),
            r.deep_view() == v.deep_view().subrange(0, r@.len() as int),
        decreases n - r@.len(),
    {
        let i = r.len();
        r.push(chars_to_string(&v[i]));
        proof {
            assert(r.deep_view() =~~= v.deep_view().subrange(0, i + 1));
        }
    }
    proof {
        assert(v.deep_view().subrange(0, n as int) =~= v.deep_view());
    }
    r
}

} // verus!
