use vstd::prelude::*;
use crate::threat::strings_view;

verus! {

/// The distinct keys of `keys[0..n]`, in order of first appearance.
pub open spec fn distinct_prefix(keys: Seq<Seq<char>>, n: int) -> Seq<Seq<char>>
    decreases n,
{
    if n <= 0 {
        Seq::empty()
    } else {
        let d = distinct_prefix(keys, n - 1);
        if d.contains(keys[n - 1]) {
            d
        } else {
            d.push(keys[n - 1])
        }
    }
}

/// The distinct keys, in order of first appearance.
pub open spec fn distinct_keys(keys: Seq<Seq<char>>) -> Seq<Seq<char>> {
    distinct_prefix(keys, keys.len() as int)
}

/// The positions `i < n` with `keys[i] == k`, in increasing order.
pub open spec fn members_prefix(keys: Seq<Seq<char>>, k: Seq<char>, n: int) -> Seq<usize>
    decreases n,
{
    if n <= 0 {
        Seq::empty()
    } else if keys[n - 1] == k {
        members_prefix(keys, k, n - 1).push((n - 1) as usize)
    } else {
        members_prefix(keys, k, n - 1)
    }
}

/// The positions holding the key `k`, in increasing order.
pub open spec fn key_members(keys: Seq<Seq<char>>, k: Seq<char>) -> Seq<usize> {
    members_prefix(keys, k, keys.len() as int)
}

/// The distinct keys of a vector of strings, in order of first appearance.
pub fn distinct(keys: &Vec<String>) -> (r: Vec<String>)
    ensures
        strings_view(r@) == distinct_keys(strings_view(keys@)),
{
    let ghost kv = strings_view(keys@);
    let mut r: Vec<String> = Vec::new();
    let mut i: usize = 0;
    while i < keys.len()
        invariant
            i <= keys.len(),
            kv == strings_view(keys@),
            strings_view(r@) == distinct_prefix(kv, i as int),
        decreases keys.len() - i,
    {
        let ghost before = strings_view(r@);
        if !crate::evidence::contains_string(&r, keys[i].as_str()) {
            r.push(keys[i].clone());
            assert(strings_view(r@) =~= before.push(kv[i as int]));
        }
        i += 1;
    }
    r
}

/// The positions of `keys` holding `k`, in increasing order.
pub fn members_of(keys: &Vec<String>, k: &String) -> (r: Vec<usize>)
    ensures
        r@ == key_members(strings_view(keys@), k@),
        forall|j: int| 0 <= j < r@.len() ==> r@[j] < keys@.len(),
{
    let ghost kv = strings_view(keys@);
    let mut r: Vec<usize> = Vec::new();
    let mut i: usize = 0;
    while i < keys.len()
        invariant
            i <= keys.len(),
            kv == strings_view(keys@),
            r@ == members_prefix(kv, k@, i as int),
            forall|j: int| 0 <= j < r@.len() ==> r@[j] < i,
        decreases keys.len() - i,
    {
        if keys[i] == *k {
            r.push(i);
        }
        i += 1;
    }
    r
}

/// Where an item with key `t` goes among the keys `ks` of an already
/// ordered list: after every entry whose key is at most `t`, scanning
/// from `j`.
pub open spec fn insert_pos(ks: Seq<int>, t: int, j: int) -> int
    decreases ks.len() - j,
{
    if j >= ks.len() {
        ks.len() as int
    } else if ks[j] > t {
        j
    } else {
        insert_pos(ks, t, j + 1)
    }
}

/// The keys of the items of `s`.
pub open spec fn keys_of(s: Seq<usize>, key: spec_fn(usize) -> int) -> Seq<int> {
    Seq::new(s.len(), |i: int| key(s[i]))
}

/// The items of `s` ordered by `key`, items with equal keys keeping their
/// order in `s` (a stable sort).
pub open spec fn stable_sort(s: Seq<usize>, key: spec_fn(usize) -> int) -> Seq<usize>
    decreases s.len(),
{
    if s.len() == 0 {
        s
    } else {
        let r = stable_sort(s.drop_last(), key);
        let p = insert_pos(keys_of(r, key), key(s.last()), 0);
        r.insert(p, s.last())
    }
}

pub proof fn lemma_insert_pos_bounds(ks: Seq<int>, t: int, j: int)
    requires
        0 <= j <= ks.len(),
    ensures
        j <= insert_pos(ks, t, j) <= ks.len(),
    decreases ks.len() - j,
{
    if j < ks.len() && ks[j] <= t {
        lemma_insert_pos_bounds(ks, t, j + 1);
    }
}

pub proof fn lemma_stable_sort_len(s: Seq<usize>, key: spec_fn(usize) -> int)
    ensures
        stable_sort(s, key).len() == s.len(),
    decreases s.len(),
{
    if s.len() > 0 {
        lemma_stable_sort_len(s.drop_last(), key);
        let r = stable_sort(s.drop_last(), key);
        lemma_insert_pos_bounds(keys_of(r, key), key(s.last()), 0);
    }
}

/// The key function reading item `x`'s key at position `x` of `ks`.
pub open spec fn seq_key(ks: Seq<int>) -> spec_fn(usize) -> int {
    |x: usize| ks[x as int]
}

/// The values of a sequence of 64-bit integers as mathematical integers.
pub open spec fn ints(v: Seq<i64>) -> Seq<int> {
    Seq::new(v.len(), |i: int| v[i] as int)
}

/// Sorts `s` by `keys` (the key of item `x` is `keys[x]`), keeping the
/// order of `s` among items with equal keys.
pub fn stable_sort_by_key(s: &Vec<usize>, keys: &Vec<i64>) -> (r: Vec<usize>)
    requires
        forall|j: int| 0 <= j < s@.len() ==> s@[j] < keys@.len(),
    ensures
        r@ == stable_sort(s@, seq_key(ints(keys@))),
        r@.len() == s@.len(),
        forall|j: int| 0 <= j < r@.len() ==> r@[j] < keys@.len(),
{
    let ghost key = seq_key(ints(keys@));
    let mut r: Vec<usize> = Vec::new();
    let mut i: usize = 0;
    while i < s.len()
        invariant
            i <= s.len(),
            key == seq_key(ints(keys@)),
            forall|j: int| 0 <= j < s@.len() ==> s@[j] < keys@.len(),
            r@ == stable_sort(s@.take(i as int), key),
            r@.len() == i,
            forall|j: int| 0 <= j < r@.len() ==> r@[j] < keys@.len(),
        decreases s.len() - i,
    {
        let x = s[i];
        let t = keys[x];
        let ghost ks = keys_of(r@, key);
        let mut p: usize = 0;
        while p < r.len() && keys[r[p]] <= t
            invariant
                p <= r.len(),
                ks == keys_of(r@, key),
                forall|j: int| 0 <= j < r@.len() ==> r@[j] < keys@.len(),
                key == seq_key(ints(keys@)),
                insert_pos(ks, t as int, 0) == insert_pos(ks, t as int, p as int),
            decreases r.len() - p,
        {
            p += 1;
        }
        assert(insert_pos(ks, t as int, p as int) == p);
        assert(s@.take(i + 1).drop_last() =~= s@.take(i as int));
        assert(s@.take(i + 1).last() == x);
        r.insert(p, x);
        i += 1;
    }
    assert(s@.take(s.len() as int) =~= s@);
    r
}

/// The texts joined by `sep`.
pub open spec fn join(texts: Seq<Seq<char>>, sep: Seq<char>) -> Seq<char>
    decreases texts.len(),
{
    if texts.len() == 0 {
        Seq::empty()
    } else if texts.len() == 1 {
        texts[0]
    } else {
        join(texts.drop_last(), sep) + sep + texts.last()
    }
}

pub proof fn lemma_join_push(texts: Seq<Seq<char>>, sep: Seq<char>, t: Seq<char>)
    ensures
        join(texts.push(t), sep) == if texts.len() == 0 { t } else { join(texts, sep) + sep + t },
{
    assert(texts.push(t).drop_last() =~= texts);
}

/// Counts of the keys, one entry per distinct key in order of first
/// appearance.
pub open spec fn key_counts(keys: Seq<Seq<char>>) -> Seq<(Seq<char>, nat)> {
    let d = distinct_keys(keys);
    Seq::new(d.len(), |i: int| (d[i], key_members(keys, d[i]).len()))
}

/// The views of a sequence of counters.
pub open spec fn counts_view(v: Seq<(String, usize)>) -> Seq<(Seq<char>, nat)> {
    Seq::new(v.len(), |i: int| (v[i].0@, v[i].1 as nat))
}

/// Counts of the keys, one entry per distinct key in order of first
/// appearance.
pub fn counts(keys: &Vec<String>) -> (r: Vec<(String, usize)>)
    ensures
        counts_view(r@) == key_counts(strings_view(keys@)),
{
    let d = distinct(keys);
    let mut r: Vec<(String, usize)> = Vec::new();
    let mut i: usize = 0;
    while i < d.len()
        invariant
            i <= d@.len(),
            strings_view(d@) == distinct_keys(strings_view(keys@)),
            r@.len() == i,
            forall|k: int| 0 <= k < i ==> (#[trigger] r@[k]).0@ == d@[k]@
                && r@[k].1 == key_members(strings_view(keys@), d@[k]@).len(),
        decreases d.len() - i,
    {
        let m = members_of(keys, &d[i]);
        r.push((d[i].clone(), m.len()));
        i += 1;
    }
    assert forall|k: int| 0 <= k < r@.len() implies counts_view(r@)[k] == key_counts(strings_view(keys@))[k] by {
        assert(strings_view(d@)[k] == d@[k]@);
    }
    assert(counts_view(r@) =~= key_counts(strings_view(keys@)));
    r
}

/// The distinct keys of the first `n` keys hold each of those keys, and
/// each once.
pub proof fn lemma_distinct_prefix(keys: Seq<Seq<char>>, n: int)
    requires
        0 <= n <= keys.len(),
    ensures
        distinct_prefix(keys, n).no_duplicates(),
        forall|x: Seq<char>| #[trigger] distinct_prefix(keys, n).contains(x) <==> keys.take(n).contains(x),
    decreases n,
{
    if n > 0 {
        lemma_distinct_prefix(keys, n - 1);
        let d = distinct_prefix(keys, n - 1);
        let t = keys.take(n);
        let p = keys.take(n - 1);
        assert(p =~= t.drop_last());
        assert forall|x: Seq<char>| #[trigger] t.contains(x) <==> p.contains(x) || x == keys[n - 1] by {
            if t.contains(x) {
                let j = choose|j: int| 0 <= j < t.len() && t[j] == x;
                if j < n - 1 {
                    assert(p[j] == x);
                }
            }
            if p.contains(x) {
                let j = choose|j: int| 0 <= j < p.len() && p[j] == x;
                assert(t[j] == x);
            }
            if x == keys[n - 1] {
                assert(t[n - 1] == x);
            }
        }
        if !d.contains(keys[n - 1]) {
            let e = d.push(keys[n - 1]);
            assert forall|x: Seq<char>| #[trigger] e.contains(x) <==> d.contains(x) || x == keys[n - 1] by {
                if e.contains(x) {
                    let j = choose|j: int| 0 <= j < e.len() && e[j] == x;
                    if j < d.len() {
                        assert(d[j] == x);
                    }
                }
                if d.contains(x) {
                    let j = choose|j: int| 0 <= j < d.len() && d[j] == x;
                    assert(e[j] == x);
                }
                if x == keys[n - 1] {
                    assert(e[d.len() as int] == x);
                }
            }
            assert forall|i: int, j: int| 0 <= i < e.len() && 0 <= j < e.len() && i != j implies e[i] != e[j] by {
                if i == d.len() {
                    assert(e[j] == d[j]);
                } else if j == d.len() {
                    assert(e[i] == d[i]);
                }
            }
        }
    }
}

/// Whether the keys are in nondecreasing order.
pub open spec fn keys_sorted(ks: Seq<int>) -> bool {
    forall|a: int, b: int| 0 <= a <= b < ks.len() ==> ks[a] <= ks[b]
}

proof fn lemma_insert_pos_sorted(ks: Seq<int>, t: int, j: int)
    requires
        keys_sorted(ks),
        0 <= j <= ks.len(),
        forall|a: int| 0 <= a < j ==> ks[a] <= t,
    ensures
        j <= insert_pos(ks, t, j) <= ks.len(),
        forall|a: int| 0 <= a < insert_pos(ks, t, j) ==> ks[a] <= t,
        forall|a: int| insert_pos(ks, t, j) <= a < ks.len() ==> ks[a] > t,
    decreases ks.len() - j,
{
    if j < ks.len() && ks[j] <= t {
        lemma_insert_pos_sorted(ks, t, j + 1);
    }
}

/// A stable sort orders its items by key, and keeps the same number of
/// items, each taken from the input.
pub proof fn lemma_stable_sort_sorted(s: Seq<usize>, key: spec_fn(usize) -> int)
    ensures
        stable_sort(s, key).len() == s.len(),
        keys_sorted(keys_of(stable_sort(s, key), key)),
        forall|k: int| 0 <= k < s.len() ==> s.contains(#[trigger] stable_sort(s, key)[k]),
    decreases s.len(),
{
    if s.len() > 0 {
        let d = s.drop_last();
        let x = s.last();
        lemma_stable_sort_sorted(d, key);
        let r0 = stable_sort(d, key);
        let ks = keys_of(r0, key);
        lemma_insert_pos_sorted(ks, key(x), 0);
        let p = insert_pos(ks, key(x), 0);
        let r = r0.insert(p, x);
        assert(stable_sort(s, key) == r);
        assert forall|a: int, b: int| 0 <= a <= b < r.len() implies keys_of(r, key)[a] <= keys_of(r, key)[b] by {
            assert(keys_of(r, key)[a] == key(r[a]));
            assert(keys_of(r, key)[b] == key(r[b]));
            if a < p {
                assert(r[a] == r0[a]);
                assert(ks[a] == key(r0[a]));
                if b < p {
                    assert(r[b] == r0[b]);
                    assert(ks[b] == key(r0[b]));
                } else if b > p {
                    assert(r[b] == r0[b - 1]);
                    assert(ks[b - 1] == key(r0[b - 1]));
                }
            } else if a == p {
                if b > p {
                    assert(r[b] == r0[b - 1]);
                    assert(ks[b - 1] == key(r0[b - 1]));
                }
            } else {
                assert(r[a] == r0[a - 1]);
                assert(r[b] == r0[b - 1]);
                assert(ks[a - 1] == key(r0[a - 1]));
                assert(ks[b - 1] == key(r0[b - 1]));
            }
        }
        assert forall|k: int| 0 <= k < s.len() implies s.contains(#[trigger] r[k]) by {
            if k < p {
                assert(r[k] == r0[k]);
                let q = choose|q: int| 0 <= q < d.len() && d[q] == r0[k];
                assert(s[q] == d[q]);
            } else if k == p {
                assert(s[s.len() - 1] == x);
            } else {
                assert(r[k] == r0[k - 1]);
                let q = choose|q: int| 0 <= q < d.len() && d[q] == r0[k - 1];
                assert(s[q] == d[q]);
            }
        }
    }
}

} // verus!
