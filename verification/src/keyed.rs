//! Keyed upserts over sequences: the merge primitive of the ingestion
//! engine.  An upsert writes an item over the first entry carrying the same
//! key, or appends it; a batch folds upserts left to right.  On a store
//! whose keys are unique, re-applying a batch changes nothing — the heart
//! of idempotent ingestion.

use vstd::prelude::*;

verus! {

/// Index of the first entry of `s` whose key is `k`, or -1.
pub open spec fn first_key_at<T, K>(s: Seq<T>, key: spec_fn(T) -> K, k: K) -> int
    decreases s.len(),
{
    if s.len() == 0 {
        -1
    } else if key(s[0]) == k {
        0
    } else {
        let r = first_key_at(s.drop_first(), key, k);
        if r == -1 {
            -1
        } else {
            r + 1
        }
    }
}

/// Characterization of `first_key_at`.
pub proof fn lemma_first_key_at<T, K>(s: Seq<T>, key: spec_fn(T) -> K, k: K)
    ensures
        first_key_at(s, key, k) >= -1,
        first_key_at(s, key, k) == -1 ==> forall|j: int|
            0 <= j < s.len() ==> key(#[trigger] s[j]) != k,
        first_key_at(s, key, k) >= 0 ==> {
            let i = first_key_at(s, key, k);
            &&& 0 <= i < s.len()
            &&& key(s[i]) == k
            &&& forall|j: int| 0 <= j < i ==> key(#[trigger] s[j]) != k
        },
    decreases s.len(),
{
    if s.len() > 0 && key(s[0]) != k {
        lemma_first_key_at(s.drop_first(), key, k);
        let t = s.drop_first();
        let r = first_key_at(t, key, k);
        assert(forall|j: int| 0 <= j < t.len() ==> #[trigger] t[j] == s[j + 1]);
        if r == -1 {
            assert forall|j: int| 0 <= j < s.len() implies key(#[trigger] s[j]) != k by {
                if j > 0 {
                    assert(s[j] == t[j - 1]);
                }
            }
        } else {
            assert(s[r + 1] == t[r]);
            assert forall|j: int| 0 <= j < r + 1 implies key(#[trigger] s[j]) != k by {
                if j > 0 {
                    assert(s[j] == t[j - 1]);
                }
            }
        }
    }
}

/// Writes `x` over the first entry with its key, or appends it.
pub open spec fn spec_upsert<T, K>(s: Seq<T>, key: spec_fn(T) -> K, x: T) -> Seq<T> {
    let i = first_key_at(s, key, key(x));
    if i < 0 || i >= s.len() {
        s.push(x)
    } else {
        s.update(i, x)
    }
}

/// Folds upserts of `items` over `s`, left to right.
pub open spec fn spec_upsert_all<T, K>(s: Seq<T>, key: spec_fn(T) -> K, items: Seq<T>) -> Seq<T>
    decreases items.len(),
{
    if items.len() == 0 {
        s
    } else {
        spec_upsert_all(spec_upsert(s, key, items[0]), key, items.subrange(1, items.len() as int))
    }
}

/// A batch extended by one item is the batch, then one more upsert.
pub proof fn lemma_upsert_all_snoc<T, K>(s: Seq<T>, key: spec_fn(T) -> K, items: Seq<T>, x: T)
    ensures
        spec_upsert_all(s, key, items.push(x)) == spec_upsert(
            spec_upsert_all(s, key, items),
            key,
            x,
        ),
    decreases items.len(),
{
    if items.len() == 0 {
        assert(items.push(x)[0] == x);
        assert(items.push(x).subrange(1, 1) =~= Seq::<T>::empty());
        assert(spec_upsert_all(spec_upsert(s, key, x), key, items.push(x).subrange(1, 1))
            == spec_upsert(s, key, x));
    } else {
        assert(items.push(x)[0] == items[0]);
        assert(items.push(x).subrange(1, items.push(x).len() as int) =~= items.subrange(
            1,
            items.len() as int,
        ).push(x));
        lemma_upsert_all_snoc(spec_upsert(s, key, items[0]), key, items.subrange(
            1,
            items.len() as int,
        ), x);
    }
}

/// A batch of a concatenation is the first batch, then the second.
pub proof fn lemma_upsert_all_app<T, K>(s: Seq<T>, key: spec_fn(T) -> K, x: Seq<T>, y: Seq<T>)
    ensures
        spec_upsert_all(s, key, x + y) == spec_upsert_all(spec_upsert_all(s, key, x), key, y),
    decreases y.len(),
{
    if y.len() == 0 {
        assert(x + y =~= x);
    } else {
        let e = y[y.len() - 1];
        let y0 = y.subrange(0, y.len() - 1);
        assert(y =~= y0.push(e));
        assert(x + y =~= (x + y0).push(e));
        lemma_upsert_all_snoc(s, key, x + y0, e);
        lemma_upsert_all_app(s, key, x, y0);
        lemma_upsert_all_snoc(spec_upsert_all(s, key, x), key, y0, e);
    }
}

/// With the item itself as key, an upsert is a set insertion: membership
/// afterwards means membership before, or being the item.
pub open spec fn id_key<T>() -> spec_fn(T) -> T {
    |x: T| x
}

/// Elements of a batch of identity-keyed upserts: the old elements and the
/// batch items, nothing else.
pub proof fn lemma_upsert_all_members<T>(s: Seq<T>, items: Seq<T>)
    ensures
        forall|e: T|
            #[trigger] spec_upsert_all(s, id_key::<T>(), items).contains(e) <==> (s.contains(e)
                || items.contains(e)),
    decreases items.len(),
{
    let key = id_key::<T>();
    if items.len() == 0 {
        assert forall|e: T| #[trigger] items.contains(e) implies false by {}
    } else {
        let x = items[0];
        let rest = items.subrange(1, items.len() as int);
        let s1 = spec_upsert(s, key, x);
        lemma_first_key_at(s, key, key(x));
        let i = first_key_at(s, key, key(x));
        assert(key(x) == x);
        lemma_upsert_all_members(s1, rest);
        assert forall|e: T| #[trigger] s1.contains(e) <==> (s.contains(e) || e == x) by {
            if i < 0 || i >= s.len() {
                assert(s1 =~= s.push(x));
                if s.contains(e) {
                    let w = choose|w: int| 0 <= w < s.len() && s[w] == e;
                    assert(s1[w] == e);
                }
                if e == x {
                    assert(s1[s.len() as int] == e);
                }
                if s1.contains(e) {
                    let w = choose|w: int| 0 <= w < s1.len() && s1[w] == e;
                    if w < s.len() {
                        assert(s[w] == e);
                    }
                }
            } else {
                assert(key(s[i]) == s[i]);
                assert(s[i] == x);
                assert(s1 =~= s.update(i, x));
                assert(s1 =~= s);
                if e == x {
                    assert(s[i] == e);
                }
            }
        }
        assert forall|e: T| #[trigger] items.contains(e) <==> (e == x || rest.contains(e)) by {
            if items.contains(e) {
                let w = choose|w: int| 0 <= w < items.len() && items[w] == e;
                if w > 0 {
                    assert(rest[w - 1] == e);
                }
            }
            if rest.contains(e) {
                let w = choose|w: int| 0 <= w < rest.len() && rest[w] == e;
                assert(items[w + 1] == e);
            }
            if e == x {
                assert(items[0] == e);
            }
        }
        assert forall|e: T|
            #[trigger] spec_upsert_all(s, key, items).contains(e) <==> (s.contains(e)
                || items.contains(e)) by {
            assert(spec_upsert_all(s, key, items) == spec_upsert_all(s1, key, rest));
            assert(spec_upsert_all(s1, id_key::<T>(), rest).contains(e) <==> (s1.contains(e)
                || rest.contains(e)));
        }
    }
}

/// The concatenation of `f` over the elements of `s`, in order.
pub open spec fn concat_fold<A, B>(s: Seq<A>, f: spec_fn(A) -> Seq<B>) -> Seq<B>
    decreases s.len(),
{
    if s.len() == 0 {
        Seq::empty()
    } else {
        concat_fold(s.subrange(0, s.len() - 1), f) + f(s[s.len() - 1])
    }
}

/// A concatenation fold does not see an update whose contribution is
/// unchanged.
pub proof fn lemma_concat_fold_update<A, B>(s: Seq<A>, f: spec_fn(A) -> Seq<B>, i: int, x: A)
    requires
        0 <= i < s.len(),
        f(x) == f(s[i]),
    ensures
        concat_fold(s.update(i, x), f) == concat_fold(s, f),
    decreases s.len(),
{
    let t = s.update(i, x);
    assert(t.len() == s.len());
    if s.len() > 0 {
        let pre = s.subrange(0, s.len() - 1);
        let tpre = t.subrange(0, t.len() - 1);
        if i == s.len() - 1 {
            assert(tpre =~= pre);
            assert(f(t[t.len() - 1]) == f(s[s.len() - 1]));
        } else {
            assert(tpre =~= pre.update(i, x));
            assert(pre[i] == s[i]);
            lemma_concat_fold_update(pre, f, i, x);
            assert(t[t.len() - 1] == s[s.len() - 1]);
        }
    }
}

/// A concatenation fold over one more element.
pub proof fn lemma_concat_fold_push<A, B>(s: Seq<A>, f: spec_fn(A) -> Seq<B>, x: A)
    ensures
        concat_fold(s.push(x), f) == concat_fold(s, f) + f(x),
{
    assert(s.push(x).subrange(0, s.push(x).len() - 1) =~= s);
    assert(s.push(x)[s.push(x).len() - 1] == x);
}

/// Membership in a concatenation fold: some element of `s` contributed it.
pub proof fn lemma_concat_fold_members<A, B>(s: Seq<A>, f: spec_fn(A) -> Seq<B>)
    ensures
        forall|b: B|
            #[trigger] concat_fold(s, f).contains(b) <==> exists|i: int|
                0 <= i < s.len() && f(#[trigger] s[i]).contains(b),
    decreases s.len(),
{
    if s.len() > 0 {
        let pre = s.subrange(0, s.len() - 1);
        lemma_concat_fold_members(pre, f);
        assert(forall|j: int| 0 <= j < pre.len() ==> #[trigger] pre[j] == s[j]);
        assert forall|b: B|
            #[trigger] concat_fold(s, f).contains(b) <==> exists|i: int|
                0 <= i < s.len() && f(#[trigger] s[i]).contains(b) by {
            if concat_fold(s, f).contains(b) {
                let w = choose|w: int|
                    0 <= w < concat_fold(s, f).len() && concat_fold(s, f)[w] == b;
                if w < concat_fold(pre, f).len() {
                    assert(concat_fold(pre, f)[w] == b);
                    assert(concat_fold(pre, f).contains(b));
                    let i = choose|i: int| 0 <= i < pre.len() && f(#[trigger] pre[i]).contains(b);
                    assert(f(s[i]).contains(b));
                } else {
                    assert(f(s[s.len() - 1])[w - concat_fold(pre, f).len()] == b);
                    assert(f(s[s.len() - 1]).contains(b));
                }
            }
            if exists|i: int| 0 <= i < s.len() && f(#[trigger] s[i]).contains(b) {
                let i = choose|i: int| #![trigger s[i]] 0 <= i < s.len() && f(s[i]).contains(b);
                let w = choose|w: int| 0 <= w < f(s[i]).len() && (#[trigger] f(s[i])[w]) == b;
                if i < s.len() - 1 {
                    assert(pre[i] == s[i]);
                    assert(concat_fold(pre, f).contains(b));
                    let v = choose|v: int|
                        0 <= v < concat_fold(pre, f).len() && concat_fold(pre, f)[v] == b;
                    assert(concat_fold(s, f)[v] == b);
                } else {
                    assert(concat_fold(s, f)[concat_fold(pre, f).len() + w] == b);
                }
            }
        }
    }
}

/// No two entries of `s` share a key.
pub open spec fn unique_keys<T, K>(s: Seq<T>, key: spec_fn(T) -> K) -> bool {
    forall|i: int, j: int|
        0 <= i < j < s.len() ==> key(#[trigger] s[i]) != key(#[trigger] s[j])
}

/// An upsert keeps every existing entry's key, extends by at most one, and
/// leaves its item at the position carrying its key.
pub proof fn lemma_upsert_shape<T, K>(s: Seq<T>, key: spec_fn(T) -> K, x: T)
    ensures
        ({
            let t = spec_upsert(s, key, x);
            &&& s.len() <= t.len() <= s.len() + 1
            &&& forall|j: int| 0 <= j < s.len() ==> key(#[trigger] t[j]) == key(s[j])
            &&& exists|p: int| 0 <= p < t.len() && #[trigger] t[p] == x
            &&& forall|j: int| 0 <= j < s.len() && t[j] != s[j] ==> key(#[trigger] s[j]) == key(x)
        }),
        unique_keys(s, key) ==> unique_keys(spec_upsert(s, key, x), key),
{
    lemma_first_key_at(s, key, key(x));
    let t = spec_upsert(s, key, x);
    let i = first_key_at(s, key, key(x));
    if i == -1 {
        assert(t[s.len() as int] == x);
        if unique_keys(s, key) {
            assert forall|a: int, b: int|
                0 <= a < b < t.len() implies key(#[trigger] t[a]) != key(#[trigger] t[b]) by {
                if b == s.len() {
                    assert(key(s[a]) != key(x));
                }
            }
        }
    } else {
        assert(t[i] == x);
    }
}

/// `first_key_at` depends only on the keys of the entries.
pub proof fn lemma_first_key_same<T, K>(s: Seq<T>, t: Seq<T>, key: spec_fn(T) -> K, k: K)
    requires
        s.len() == t.len(),
        forall|j: int| 0 <= j < s.len() ==> key(#[trigger] s[j]) == key(#[trigger] t[j]),
    ensures
        first_key_at(s, key, k) == first_key_at(t, key, k),
    decreases s.len(),
{
    if s.len() > 0 {
        lemma_first_key_same(s.drop_first(), t.drop_first(), key, k);
        assert(forall|j: int|
            0 <= j < s.len() - 1 ==> #[trigger] s.drop_first()[j] == s[j + 1] && t.drop_first()[j]
                == t[j + 1]);
        assert(key(s[0]) == key(t[0]));
    }
}

/// A batch keeps every existing entry's key and never shortens the store.
pub proof fn lemma_upsert_all_shape<T, K>(s: Seq<T>, key: spec_fn(T) -> K, items: Seq<T>)
    ensures
        ({
            let t = spec_upsert_all(s, key, items);
            &&& s.len() <= t.len()
            &&& forall|j: int| 0 <= j < s.len() ==> key(#[trigger] t[j]) == key(s[j])
        }),
        unique_keys(s, key) ==> unique_keys(spec_upsert_all(s, key, items), key),
    decreases items.len(),
{
    if items.len() > 0 {
        lemma_upsert_shape(s, key, items[0]);
        lemma_upsert_all_shape(spec_upsert(s, key, items[0]), key, items.subrange(
            1,
            items.len() as int,
        ));
    }
}

/// An entry whose key no batch item carries is left exactly in place.
pub proof fn lemma_upsert_all_frame<T, K>(s: Seq<T>, key: spec_fn(T) -> K, items: Seq<T>, p: int)
    requires
        0 <= p < s.len(),
        forall|j: int| 0 <= j < items.len() ==> key(#[trigger] items[j]) != key(s[p]),
    ensures
        spec_upsert_all(s, key, items).len() >= s.len(),
        spec_upsert_all(s, key, items)[p] == s[p],
    decreases items.len(),
{
    if items.len() > 0 {
        let x = items[0];
        lemma_upsert_shape(s, key, x);
        lemma_first_key_at(s, key, key(x));
        let s1 = spec_upsert(s, key, x);
        assert(s1[p] == s[p]) by {
            let i = first_key_at(s, key, key(x));
            if !(i < 0 || i >= s.len()) {
                assert(key(s[i]) == key(x));
                assert(i != p);
            }
        }
        assert(key(s1[p]) == key(s[p]));
        let rest = items.subrange(1, items.len() as int);
        assert(forall|j: int|
            0 <= j < rest.len() ==> #[trigger] rest[j] == items[j + 1]);
        lemma_upsert_all_frame(s1, key, rest, p);
    }
}

/// Two stores that differ in the value at one position, while agreeing on
/// every key, converge once the batch writes that key again.
pub proof fn lemma_upsert_all_converge<T, K>(
    s: Seq<T>,
    t: Seq<T>,
    key: spec_fn(T) -> K,
    items: Seq<T>,
    p: int,
)
    requires
        s.len() == t.len(),
        0 <= p < s.len(),
        forall|j: int| 0 <= j < s.len() && j != p ==> #[trigger] s[j] == t[j],
        key(s[p]) == key(t[p]),
        unique_keys(s, key),
        exists|j: int| 0 <= j < items.len() && key(#[trigger] items[j]) == key(s[p]),
    ensures
        spec_upsert_all(s, key, items) == spec_upsert_all(t, key, items),
    decreases items.len(),
{
    assert(forall|j: int| 0 <= j < s.len() ==> key(#[trigger] s[j]) == key(#[trigger] t[j]));
    let x = items[0];
    let rest = items.subrange(1, items.len() as int);
    assert(forall|j: int| 0 <= j < rest.len() ==> #[trigger] rest[j] == items[j + 1]);
    lemma_first_key_same(s, t, key, key(x));
    lemma_first_key_at(s, key, key(x));
    lemma_upsert_shape(s, key, x);
    lemma_upsert_shape(t, key, x);
    let i = first_key_at(s, key, key(x));
    let s1 = spec_upsert(s, key, x);
    let t1 = spec_upsert(t, key, x);
    if key(x) == key(s[p]) {
        assert(i == p) by {
            assert(key(s[p]) == key(x));
            assert(i >= 0);
            if i < p {
                assert(key(s[i]) == key(x));
            }
            if i > p {
                assert(key(s[i]) != key(s[p]));
            }
        }
        assert(s1 =~= s.update(p, x));
        assert(t1 =~= t.update(p, x));
        assert(s1 =~= t1);
    } else {
        assert(exists|j: int| 0 <= j < rest.len() && key(#[trigger] rest[j]) == key(s[p])) by {
            let w = choose|j: int| 0 <= j < items.len() && key(#[trigger] items[j]) == key(s[p]);
            assert(w != 0);
            assert(rest[w - 1] == items[w]);
        }
        if i < 0 || i >= s.len() {
            assert(s1 =~= s.push(x));
            assert(t1 =~= t.push(x));
            assert(forall|j: int| 0 <= j < s1.len() && j != p ==> #[trigger] s1[j] == t1[j]);
            lemma_upsert_all_converge(s1, t1, key, rest, p);
        } else {
            assert(i != p) by {
                assert(key(s[i]) == key(x));
            }
            assert(forall|j: int| 0 <= j < s1.len() && j != p ==> #[trigger] s1[j] == t1[j]);
            assert(key(s1[p]) == key(t1[p]));
            lemma_upsert_all_converge(s1, t1, key, rest, p);
        }
    }
}

/// Applying a batch a second time changes nothing: keyed upserts are
/// idempotent on a store with unique keys.
pub proof fn lemma_upsert_all_idem<T, K>(s: Seq<T>, key: spec_fn(T) -> K, items: Seq<T>)
    requires
        unique_keys(s, key),
    ensures
        spec_upsert_all(spec_upsert_all(s, key, items), key, items) == spec_upsert_all(
            s,
            key,
            items,
        ),
    decreases items.len(),
{
    if items.len() > 0 {
        let x = items[0];
        let rest = items.subrange(1, items.len() as int);
        assert(forall|j: int| 0 <= j < rest.len() ==> #[trigger] rest[j] == items[j + 1]);
        let s1 = spec_upsert(s, key, x);
        lemma_upsert_shape(s, key, x);
        let h = spec_upsert_all(s1, key, rest);
        lemma_upsert_all_shape(s1, key, rest);
        lemma_upsert_all_idem(s1, key, rest);
        // h == spec_upsert_all(s, key, items); goal: spec_upsert_all(spec_upsert(h, x), rest) == h
        let p = choose|p: int| 0 <= p < s1.len() && #[trigger] s1[p] == x;
        lemma_first_key_at(h, key, key(x));
        let q = first_key_at(h, key, key(x));
        assert(key(h[p]) == key(s1[p]));
        assert(q >= 0) by {
            if q == -1 {
                assert(key(h[p]) != key(x));
            }
        }
        let h1 = spec_upsert(h, key, x);
        if h[q] == x {
            assert(h1 =~= h);
            assert(spec_upsert_all(h, key, items) == spec_upsert_all(h1, key, rest));
        } else {
            if exists|j: int| 0 <= j < rest.len() && key(#[trigger] rest[j]) == key(x) {
                lemma_upsert_shape(h, key, x);
                assert(h1 =~= h.update(q, x));
                assert(forall|j: int| 0 <= j < h.len() && j != q ==> #[trigger] h1[j] == h[j]);
                lemma_upsert_all_converge(h1, h, key, rest, q);
            } else {
                // the batch tail never writes key(x); x stayed in place in h
                assert(q == p) by {
                    lemma_upsert_all_frame(s1, key, rest, p);
                    assert(h[p] == x);
                    if q < p {
                        assert(key(h[q]) == key(x));
                        assert(key(s1[q]) == key(s1[p]));
                        assert(unique_keys(s1, key));
                    }
                    if q > p {
                        assert(key(h[p]) != key(x));
                    }
                }
                lemma_upsert_all_frame(s1, key, rest, p);
                assert(h[q] == x);
                assert(false);
            }
        }
    }
}

} // verus!
