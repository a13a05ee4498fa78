//! Strings in code-point order (the order of `String`, which for UTF-8 is
//! the byte order), a sorted string map with replacement, and the
//! insertion sort of string pairs.
use vstd::prelude::*;
use vstd::relations::sorted_by;

verus! {

/// Strict lexicographic order on character sequences by code point.
pub open spec fn lex_lt(a: Seq<char>, b: Seq<char>) -> bool
    decreases a.len(),
{
    if a.len() == 0 {
        b.len() > 0
    } else if b.len() == 0 {
        false
    } else if a[0] != b[0] {
        (a[0] as u32) < (b[0] as u32)
    } else {
        lex_lt(a.drop_first(), b.drop_first())
    }
}

/// Non-strict lexicographic order on character sequences.
pub open spec fn lex_le(a: Seq<char>, b: Seq<char>) -> bool {
    a == b || lex_lt(a, b)
}

/// Lexicographic order on pairs of strings (first component, then second).
pub open spec fn pair_le(a: (Seq<char>, Seq<char>), b: (Seq<char>, Seq<char>)) -> bool {
    lex_lt(a.0, b.0) || (a.0 == b.0 && lex_le(a.1, b.1))
}

/// A sorted string map (keys strictly ascending) with `v` stored under `k`:
/// an existing entry for `k` is replaced, otherwise a new one is inserted in
/// key order (`BTreeMap::insert`).
pub open spec fn map_put(m: Seq<(Seq<char>, Seq<char>)>, k: Seq<char>, v: Seq<char>) -> Seq<
    (Seq<char>, Seq<char>),
>
    decreases m.len(),
{
    if m.len() == 0 {
        seq![(k, v)]
    } else if m[0].0 == k {
        seq![(k, v)] + m.drop_first()
    } else if lex_lt(k, m[0].0) {
        seq![(k, v)] + m
    } else {
        seq![m[0]] + map_put(m.drop_first(), k, v)
    }
}

/// `x` inserted into `s` before the first element it does not exceed.
pub open spec fn insert_pair(s: Seq<(Seq<char>, Seq<char>)>, x: (Seq<char>, Seq<char>)) -> Seq<
    (Seq<char>, Seq<char>),
>
    decreases s.len(),
{
    if s.len() == 0 {
        seq![x]
    } else if pair_le(x, s[0]) {
        seq![x] + s
    } else {
        seq![s[0]] + insert_pair(s.drop_first(), x)
    }
}

/// The pairs of `s` in ascending [`pair_le`] order.
pub open spec fn sort_pairs(s: Seq<(Seq<char>, Seq<char>)>) -> Seq<(Seq<char>, Seq<char>)>
    decreases s.len(),
{
    if s.len() == 0 {
        s
    } else {
        insert_pair(sort_pairs(s.drop_last()), s.last())
    }
}

/// `x` inserted into `s` before the first key it does not exceed.
pub open spec fn insert_key(s: Seq<Seq<char>>, x: Seq<char>) -> Seq<Seq<char>>
    decreases s.len(),
{
    if s.len() == 0 {
        seq![x]
    } else if lex_le(x, s[0]) {
        seq![x] + s
    } else {
        seq![s[0]] + insert_key(s.drop_first(), x)
    }
}

/// The keys of `s` in ascending code-point order (`<[String]>::sort`).
pub open spec fn sort_keys(s: Seq<Seq<char>>) -> Seq<Seq<char>>
    decreases s.len(),
{
    if s.len() == 0 {
        s
    } else {
        insert_key(sort_keys(s.drop_last()), s.last())
    }
}

/// The view of a vector of character-vector pairs.
pub open spec fn pairs_view(m: Seq<(Vec<char>, Vec<char>)>) -> Seq<(Seq<char>, Seq<char>)> {
    m.map_values(|p: (Vec<char>, Vec<char>)| (p.0@, p.1@))
}

// ── Order lemmas ────────────────────────────────────────────────────────────

/// No text comes before itself.
pub proof fn lemma_lex_irreflexive(a: Seq<char>)
    ensures
        !lex_lt(a, a),
    decreases a.len(),
{
    if a.len() > 0 {
        lemma_lex_irreflexive(a.drop_first());
    }
}

/// Of two texts, at most one comes before the other.
pub proof fn lemma_lex_asymmetric(a: Seq<char>, b: Seq<char>)
    ensures
        !(lex_lt(a, b) && lex_lt(b, a)),
    decreases a.len(),
{
    if a.len() > 0 && b.len() > 0 && a[0] == b[0] {
        lemma_lex_asymmetric(a.drop_first(), b.drop_first());
    }
}

/// The text order is transitive.
pub proof fn lemma_lex_transitive(a: Seq<char>, b: Seq<char>, c: Seq<char>)
    requires
        lex_lt(a, b),
        lex_lt(b, c),
    ensures
        lex_lt(a, c),
    decreases a.len(),
{
    if a.len() > 0 && b.len() > 0 && c.len() > 0 && a[0] == b[0] && b[0] == c[0] {
        lemma_lex_transitive(a.drop_first(), b.drop_first(), c.drop_first());
    }
}

/// Of two different texts, one comes before the other.
pub proof fn lemma_lex_total(a: Seq<char>, b: Seq<char>)
    ensures
        a == b || lex_lt(a, b) || lex_lt(b, a),
    decreases a.len(),
{
    if a.len() == 0 {
        if b.len() == 0 {
            assert(a =~= b);
        }
    } else if b.len() > 0 && a[0] == b[0] {
        lemma_lex_total(a.drop_first(), b.drop_first());
        if a.drop_first() == b.drop_first() {
            assert(a =~= seq![a[0]] + a.drop_first());
            assert(b =~= seq![b[0]] + b.drop_first());
        }
    } else if b.len() > 0 {
        vstd::utf8::char_u32_cast(a[0], a[0] as u32);
        vstd::utf8::char_u32_cast(b[0], b[0] as u32);
        assert((a[0] as u32) != (b[0] as u32));
    }
}

/// Any two pairs of texts are ordered one way or the other.
pub proof fn lemma_pair_le_total(a: (Seq<char>, Seq<char>), b: (Seq<char>, Seq<char>))
    ensures
        pair_le(a, b) || pair_le(b, a),
{
    lemma_lex_total(a.0, b.0);
    lemma_lex_total(a.1, b.1);
}

/// The order of pairs of texts is transitive.
pub proof fn lemma_pair_le_transitive(
    a: (Seq<char>, Seq<char>),
    b: (Seq<char>, Seq<char>),
    c: (Seq<char>, Seq<char>),
)
    requires
        pair_le(a, b),
        pair_le(b, c),
    ensures
        pair_le(a, c),
{
    if lex_lt(a.0, b.0) && lex_lt(b.0, c.0) {
        lemma_lex_transitive(a.0, b.0, c.0);
    }
    if lex_lt(a.1, b.1) && lex_lt(b.1, c.1) {
        lemma_lex_transitive(a.1, b.1, c.1);
    }
}

// ── Sorting lemmas ──────────────────────────────────────────────────────────

proof fn lemma_insert_pair_facts(s: Seq<(Seq<char>, Seq<char>)>, x: (Seq<char>, Seq<char>))
    requires
        sorted_by(s, |a: (Seq<char>, Seq<char>), b: (Seq<char>, Seq<char>)| pair_le(a, b)),
    ensures
        sorted_by(
            insert_pair(s, x),
            |a: (Seq<char>, Seq<char>), b: (Seq<char>, Seq<char>)| pair_le(a, b),
        ),
        insert_pair(s, x).to_multiset() == s.to_multiset().insert(x),
        insert_pair(s, x).len() == s.len() + 1,
        forall|i: int|
            0 <= i < insert_pair(s, x).len() ==> (#[trigger] insert_pair(s, x)[i] == x
                || s.contains(insert_pair(s, x)[i])),
    decreases s.len(),
{
    broadcast use vstd::seq_lib::group_to_multiset_ensures;

    let le = |a: (Seq<char>, Seq<char>), b: (Seq<char>, Seq<char>)| pair_le(a, b);
    if s.len() == 0 {
        assert(insert_pair(s, x) =~= seq![x]);
        assert(seq![x] =~= Seq::<(Seq<char>, Seq<char>)>::empty().push(x));
    } else if pair_le(x, s[0]) {
        let r = seq![x] + s;
        assert(insert_pair(s, x) == r);
        assert forall|i: int, j: int| 0 <= i < j < r.len() implies le(r[i], r[j]) by {
            if i == 0 {
                if j > 1 {
                    assert(le(s[0], s[j - 1]));
                    lemma_pair_le_transitive(x, s[0], s[j - 1]);
                }
            } else {
                assert(le(s[i - 1], s[j - 1]));
            }
        }
        assert(r =~= s.insert(0, x));
        s.insert_ensures(0, x);
        assert(r.to_multiset() =~= s.to_multiset().insert(x)) by {
            vstd::seq_lib::lemma_multiset_commutative(seq![x], s);
            assert(seq![x] =~= Seq::<(Seq<char>, Seq<char>)>::empty().push(x));
        }
    } else {
        let t = s.drop_first();
        assert forall|i: int, j: int| 0 <= i < j < t.len() implies le(t[i], t[j]) by {
            assert(le(s[i + 1], s[j + 1]));
        }
        lemma_insert_pair_facts(t, x);
        let it = insert_pair(t, x);
        let r = seq![s[0]] + it;
        assert(insert_pair(s, x) == r);
        lemma_pair_le_total(x, s[0]);
        assert forall|i: int, j: int| 0 <= i < j < r.len() implies le(r[i], r[j]) by {
            if i == 0 {
                let y = it[j - 1];
                if y == x {
                } else {
                    assert(t.contains(y));
                    let k = choose|k: int| 0 <= k < t.len() && t[k] == y;
                    assert(le(s[0], s[k + 1]));
                }
            } else {
                assert(le(it[i - 1], it[j - 1]));
            }
        }
        assert forall|i: int| 0 <= i < r.len() implies (#[trigger] r[i] == x || s.contains(r[i])) by {
            if i == 0 {
                assert(s.contains(s[0]));
            } else {
                if it[i - 1] != x {
                    assert(t.contains(it[i - 1]));
                    let k = choose|k: int| 0 <= k < t.len() && t[k] == it[i - 1];
                    assert(s[k + 1] == t[k]);
                }
            }
        }
        assert(s =~= seq![s[0]] + t);
        vstd::seq_lib::lemma_multiset_commutative(seq![s[0]], it);
        vstd::seq_lib::lemma_multiset_commutative(seq![s[0]], t);
    }
}

/// The insertion sort [`sort_pairs`] yields the pairs in ascending order,
/// each exactly as often as it was given.
pub proof fn lemma_sort_pairs_sorted_permutation(s: Seq<(Seq<char>, Seq<char>)>)
    ensures
        sorted_by(
            sort_pairs(s),
            |a: (Seq<char>, Seq<char>), b: (Seq<char>, Seq<char>)| pair_le(a, b),
        ),
        sort_pairs(s).to_multiset() == s.to_multiset(),
        sort_pairs(s).len() == s.len(),
    decreases s.len(),
{
    broadcast use vstd::seq_lib::group_to_multiset_ensures;

    if s.len() > 0 {
        lemma_sort_pairs_sorted_permutation(s.drop_last());
        lemma_insert_pair_facts(sort_pairs(s.drop_last()), s.last());
        assert(s =~= s.drop_last().push(s.last()));
    } else {
        assert(sort_pairs(s) =~= s);
    }
}

// ── Exec ────────────────────────────────────────────────────────────────────

/// Whether `a` sorts strictly before `b`.
pub fn lex_less(a: &[char], b: &[char]) -> (res: bool)
    ensures
        res == lex_lt(a@, b@),
{
    let mut i: usize = 0;
    assert(a@.skip(0) =~= a@);
    assert(b@.skip(0) =~= b@);
    while i < a.len() && i < b.len() && a[i] == b[i]
        invariant
            i <= a.len(),
            i <= b.len(),
            lex_lt(a@, b@) == lex_lt(a@.skip(i as int), b@.skip(i as int)),
        decreases a.len() - i,
    {
        assert(a@.skip(i as int).drop_first() =~= a@.skip(i + 1));
        assert(b@.skip(i as int).drop_first() =~= b@.skip(i + 1));
        i += 1;
    }
    if i == a.len() {
        i < b.len()
    } else if i == b.len() {
        false
    } else {
        (a[i] as u32) < (b[i] as u32)
    }
}

proof fn lemma_map_put_at(m: Seq<(Seq<char>, Seq<char>)>, k: Seq<char>, v: Seq<char>, j: int)
    requires
        0 <= j <= m.len(),
        forall|i: int| 0 <= i < j ==> (#[trigger] m[i]).0 != k && !lex_lt(k, m[i].0),
        j < m.len() ==> (m[j].0 == k || lex_lt(k, m[j].0)),
    ensures
        map_put(m, k, v) == if j < m.len() && m[j].0 == k {
            m.update(j, (k, v))
        } else {
            m.insert(j, (k, v))
        },
    decreases j,
{
    if j == 0 {
        if m.len() == 0 {
            assert(m.insert(0, (k, v)) =~= seq![(k, v)]);
        } else if m[0].0 == k {
            assert(m.update(0, (k, v)) =~= seq![(k, v)] + m.drop_first());
        } else {
            assert(m.insert(0, (k, v)) =~= seq![(k, v)] + m);
        }
    } else {
        let t = m.drop_first();
        assert forall|i: int| 0 <= i < j - 1 implies (#[trigger] t[i]).0 != k && !lex_lt(k, t[i].0) by {
            assert(t[i] == m[i + 1]);
        }
        lemma_map_put_at(t, k, v, j - 1);
        assert(m[0].0 != k && !lex_lt(k, m[0].0));
        if j < m.len() && m[j].0 == k {
            assert(m.update(j, (k, v)) =~= seq![m[0]] + t.update(j - 1, (k, v)));
        } else {
            assert(m.insert(j, (k, v)) =~= seq![m[0]] + t.insert(j - 1, (k, v)));
        }
    }
}

/// Stores `v` under `k` in the sorted map `m` ([`map_put`]).
pub fn map_put_exec(m: &mut Vec<(Vec<char>, Vec<char>)>, k: Vec<char>, v: Vec<char>)
    ensures
        pairs_view(final(m)@) == map_put(pairs_view(old(m)@), k@, v@),
{
    let ghost mv = pairs_view(m@);
    let mut j: usize = 0;
    while j < m.len() && !chars_eq_local(&m[j].0, &k) && !lex_less(&k, &m[j].0)
        invariant
            j <= m.len(),
            mv == pairs_view(m@),
            forall|i: int| 0 <= i < j ==> (#[trigger] mv[i]).0 != k@ && !lex_lt(k@, mv[i].0),
        decreases m.len() - j,
    {
        j += 1;
    }
    proof {
        lemma_map_put_at(mv, k@, v@, j as int);
    }
    if j < m.len() && chars_eq_local(&m[j].0, &k) {
        m.set(j, (k, v));
        assert(pairs_view(m@) =~= mv.update(j as int, (k@, v@)));
    } else {
        m.insert(j, (k, v));
        assert(pairs_view(m@) =~= mv.insert(j as int, (k@, v@)));
    }
}

fn chars_eq_local(a: &[char], b: &[char]) -> (res: bool)
    ensures
        res == (a@ == b@),
{
    crate::text::chars_eq(a, b)
}

/// Whether pair `a` sorts no later than pair `b`.
pub fn pair_less_eq(a: &(Vec<char>, Vec<char>), b: &(Vec<char>, Vec<char>)) -> (res: bool)
    ensures
        res == pair_le((a.0@, a.1@), (b.0@, b.1@)),
{
    lex_less(&a.0, &b.0) || (chars_eq_local(&a.0, &b.0) && (chars_eq_local(&a.1, &b.1) || lex_less(
        &a.1,
        &b.1,
    )))
}

proof fn lemma_insert_pair_at(s: Seq<(Seq<char>, Seq<char>)>, x: (Seq<char>, Seq<char>), j: int)
    requires
        0 <= j <= s.len(),
        forall|i: int| 0 <= i < j ==> !pair_le(x, #[trigger] s[i]),
        j < s.len() ==> pair_le(x, s[j]),
    ensures
        insert_pair(s, x) == s.insert(j, x),
    decreases j,
{
    if j == 0 {
        if s.len() == 0 {
            assert(s.insert(0, x) =~= seq![x]);
        } else {
            assert(s.insert(0, x) =~= seq![x] + s);
        }
    } else {
        let t = s.drop_first();
        assert forall|i: int| 0 <= i < j - 1 implies !pair_le(x, #[trigger] t[i]) by {
            assert(t[i] == s[i + 1]);
        }
        lemma_insert_pair_at(t, x, j - 1);
        assert(!pair_le(x, s[0]));
        assert(s.insert(j, x) =~= seq![s[0]] + t.insert(j - 1, x));
    }
}

/// The pairs of `ps` in ascending order ([`sort_pairs`]).
pub fn sort_pairs_exec(ps: Vec<(Vec<char>, Vec<char>)>) -> (res: Vec<(Vec<char>, Vec<char>)>)
    ensures
        pairs_view(res@) == sort_pairs(pairs_view(ps@)),
{
    let ghost pv = pairs_view(ps@);
    let mut out: Vec<(Vec<char>, Vec<char>)> = Vec::new();
    let mut i: usize = 0;
    while i < ps.len()
        invariant
            i <= ps.len(),
            pv == pairs_view(ps@),
            pairs_view(out@) == sort_pairs(pv.take(i as int)),
        decreases ps.len() - i,
    {
        let x = (ps[i].0.clone(), ps[i].1.clone());
        assert(x.0@ == ps@[i as int].0@ && x.1@ == ps@[i as int].1@);
        let ghost ov = pairs_view(out@);
        let mut j: usize = 0;
        while j < out.len() && !pair_less_eq(&x, &out[j])
            invariant
                j <= out.len(),
                ov == pairs_view(out@),
                forall|q: int| 0 <= q < j ==> !pair_le((x.0@, x.1@), #[trigger] ov[q]),
            decreases out.len() - j,
        {
            j += 1;
        }
        proof {
            lemma_insert_pair_at(ov, (x.0@, x.1@), j as int);
            assert(pv.take(i + 1).drop_last() =~= pv.take(i as int));
            assert(pv.take(i + 1).last() == (x.0@, x.1@));
        }
        out.insert(j, x);
        assert(pairs_view(out@) =~= ov.insert(j as int, (x.0@, x.1@)));
        i += 1;
    }
    assert(pv.take(ps.len() as int) =~= pv);
    out
}

// ── Sorting keys ────────────────────────────────────────────────────────────

proof fn lemma_lex_le_total(a: Seq<char>, b: Seq<char>)
    ensures
        lex_le(a, b) || lex_le(b, a),
{
    lemma_lex_total(a, b);
}

proof fn lemma_lex_le_transitive(a: Seq<char>, b: Seq<char>, c: Seq<char>)
    requires
        lex_le(a, b),
        lex_le(b, c),
    ensures
        lex_le(a, c),
{
    if lex_lt(a, b) && lex_lt(b, c) {
        lemma_lex_transitive(a, b, c);
    }
}

proof fn lemma_insert_key_facts(s: Seq<Seq<char>>, x: Seq<char>)
    requires
        sorted_by(s, |a: Seq<char>, b: Seq<char>| lex_le(a, b)),
    ensures
        sorted_by(insert_key(s, x), |a: Seq<char>, b: Seq<char>| lex_le(a, b)),
        insert_key(s, x).to_multiset() == s.to_multiset().insert(x),
        insert_key(s, x).len() == s.len() + 1,
        forall|i: int|
            0 <= i < insert_key(s, x).len() ==> (#[trigger] insert_key(s, x)[i] == x || s.contains(
                insert_key(s, x)[i],
            )),
    decreases s.len(),
{
    broadcast use vstd::seq_lib::group_to_multiset_ensures;

    let le = |a: Seq<char>, b: Seq<char>| lex_le(a, b);
    if s.len() == 0 {
        assert(insert_key(s, x) =~= seq![x]);
        assert(seq![x] =~= Seq::<Seq<char>>::empty().push(x));
    } else if lex_le(x, s[0]) {
        let r = seq![x] + s;
        assert(insert_key(s, x) == r);
        assert forall|i: int, j: int| 0 <= i < j < r.len() implies le(r[i], r[j]) by {
            if i == 0 {
                if j > 1 {
                    assert(le(s[0], s[j - 1]));
                    lemma_lex_le_transitive(x, s[0], s[j - 1]);
                }
            } else {
                assert(le(s[i - 1], s[j - 1]));
            }
        }
        assert(r =~= s.insert(0, x));
        s.insert_ensures(0, x);
        assert(r.to_multiset() =~= s.to_multiset().insert(x)) by {
            vstd::seq_lib::lemma_multiset_commutative(seq![x], s);
            assert(seq![x] =~= Seq::<Seq<char>>::empty().push(x));
        }
    } else {
        let t = s.drop_first();
        assert forall|i: int, j: int| 0 <= i < j < t.len() implies le(t[i], t[j]) by {
            assert(le(s[i + 1], s[j + 1]));
        }
        lemma_insert_key_facts(t, x);
        let it = insert_key(t, x);
        let r = seq![s[0]] + it;
        assert(insert_key(s, x) == r);
        lemma_lex_le_total(x, s[0]);
        assert forall|i: int, j: int| 0 <= i < j < r.len() implies le(r[i], r[j]) by {
            if i == 0 {
                let y = it[j - 1];
                if y == x {
                } else {
                    assert(t.contains(y));
                    let k = choose|k: int| 0 <= k < t.len() && t[k] == y;
                    assert(le(s[0], s[k + 1]));
                }
            } else {
                assert(le(it[i - 1], it[j - 1]));
            }
        }
        assert forall|i: int| 0 <= i < r.len() implies (#[trigger] r[i] == x || s.contains(r[i])) by {
            if i == 0 {
                assert(s.contains(s[0]));
            } else {
                if it[i - 1] != x {
                    assert(t.contains(it[i - 1]));
                    let k = choose|k: int| 0 <= k < t.len() && t[k] == it[i - 1];
                    assert(s[k + 1] == t[k]);
                }
            }
        }
        assert(s =~= seq![s[0]] + t);
        vstd::seq_lib::lemma_multiset_commutative(seq![s[0]], it);
        vstd::seq_lib::lemma_multiset_commutative(seq![s[0]], t);
    }
}

/// The insertion sort [`sort_keys`] yields the keys in ascending order,
/// each exactly as often as it was given.
pub proof fn lemma_sort_keys_sorted_permutation(s: Seq<Seq<char>>)
    ensures
        sorted_by(sort_keys(s), |a: Seq<char>, b: Seq<char>| lex_le(a, b)),
        sort_keys(s).to_multiset() == s.to_multiset(),
        sort_keys(s).len() == s.len(),
    decreases s.len(),
{
    broadcast use vstd::seq_lib::group_to_multiset_ensures;

    if s.len() > 0 {
        lemma_sort_keys_sorted_permutation(s.drop_last());
        lemma_insert_key_facts(sort_keys(s.drop_last()), s.last());
        assert(s =~= s.drop_last().push(s.last()));
    } else {
        assert(sort_keys(s) =~= s);
    }
}

proof fn lemma_insert_key_at(s: Seq<Seq<char>>, x: Seq<char>, j: int)
    requires
        0 <= j <= s.len(),
        forall|i: int| 0 <= i < j ==> !lex_le(x, #[trigger] s[i]),
        j < s.len() ==> lex_le(x, s[j]),
    ensures
        insert_key(s, x) == s.insert(j, x),
    decreases j,
{
    if j == 0 {
        if s.len() == 0 {
            assert(s.insert(0, x) =~= seq![x]);
        } else {
            assert(s.insert(0, x) =~= seq![x] + s);
        }
    } else {
        let t = s.drop_first();
        assert forall|i: int| 0 <= i < j - 1 implies !lex_le(x, #[trigger] t[i]) by {
            assert(t[i] == s[i + 1]);
        }
        lemma_insert_key_at(t, x, j - 1);
        assert(!lex_le(x, s[0]));
        assert(s.insert(j, x) =~= seq![s[0]] + t.insert(j - 1, x));
    }
}

/// The view of a vector of strings.
pub open spec fn strings_view(v: Seq<String>) -> Seq<Seq<char>> {
    v.map_values(|s: String| s@)
}

/// The strings of `keys` in ascending code-point order ([`sort_keys`]).
pub fn sort_strings(keys: Vec<String>) -> (res: Vec<String>)
    ensures
        strings_view(res@) == sort_keys(strings_view(keys@)),
{
    let ghost kv = strings_view(keys@);
    let mut out: Vec<String> = Vec::new();
    let mut outc: Vec<Vec<char>> = Vec::new();
    let mut i: usize = 0;
    while i < keys.len()
        invariant
            i <= keys.len(),
            kv == strings_view(keys@),
            strings_view(out@) == sort_keys(kv.take(i as int)),
            outc@.len() == out@.len(),
            forall|q: int| 0 <= q < out@.len() ==> (#[trigger] outc@[q])@ == out@[q]@,
        decreases keys.len() - i,
    {
        let xc = crate::text::chars_of(keys[i].as_str());
        let ghost ov = strings_view(out@);
        let mut j: usize = 0;
        while j < outc.len() && !(chars_eq_local(&xc, &outc[j]) || lex_less(&xc, &outc[j]))
            invariant
                j <= outc.len(),
                outc@.len() == out@.len(),
                ov == strings_view(out@),
                forall|q: int| 0 <= q < out@.len() ==> (#[trigger] outc@[q])@ == out@[q]@,
                forall|q: int| 0 <= q < j ==> !lex_le(xc@, #[trigger] ov[q]),
            decreases outc.len() - j,
        {
            j += 1;
        }
        proof {
            lemma_insert_key_at(ov, xc@, j as int);
            assert(kv.take(i + 1).drop_last() =~= kv.take(i as int));
            assert(kv.take(i + 1).last() == xc@);
        }
        let xs = crate::text::string_of(&xc);
        let ghost oc = outc@;
        out.insert(j, xs);
        outc.insert(j, xc);
        assert(strings_view(out@) =~= ov.insert(j as int, xc@));
        assert forall|q: int| 0 <= q < out@.len() implies (#[trigger] outc@[q])@ == out@[q]@ by {
            if q < j {
                assert(outc@[q] == oc[q]);
            } else if q > j {
                assert(outc@[q] == oc[q - 1]);
            }
        }
        i += 1;
    }
    assert(kv.take(keys.len() as int) =~= kv);
    out
}

} // verus!
