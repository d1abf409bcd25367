//! Orders the ledger sorts by: text in code point order (the order of Rust
//! strings), and sorting of records by a key.

use vstd::prelude::*;

verus! {

broadcast use vstd::seq_lib::group_to_multiset_ensures;

/// `a` comes strictly before `b` in code point order.
pub open spec fn text_lt(a: Seq<char>, b: Seq<char>) -> bool
    decreases a.len(),
{
    if b.len() == 0 {
        false
    } else if a.len() == 0 {
        true
    } else if a[0] != b[0] {
        (a[0] as int) < (b[0] as int)
    } else {
        text_lt(a.drop_first(), b.drop_first())
    }
}

pub proof fn lemma_text_lt_irreflexive(a: Seq<char>)
    ensures
        !text_lt(a, a),
    decreases a.len(),
{
    if a.len() > 0 {
        lemma_text_lt_irreflexive(a.drop_first());
    }
}

pub proof fn lemma_text_lt_transitive(a: Seq<char>, b: Seq<char>, c: Seq<char>)
    requires
        text_lt(a, b),
        text_lt(b, c),
    ensures
        text_lt(a, c),
    decreases a.len(),
{
    if a.len() > 0 && b.len() > 0 && c.len() > 0 && a[0] == b[0] && b[0] == c[0] {
        lemma_text_lt_transitive(a.drop_first(), b.drop_first(), c.drop_first());
    }
}

pub proof fn lemma_text_lt_trichotomy(a: Seq<char>, b: Seq<char>)
    ensures
        text_lt(a, b) || text_lt(b, a) || a == b,
    decreases a.len(),
{
    if a.len() > 0 && b.len() > 0 && a[0] == b[0] {
        lemma_text_lt_trichotomy(a.drop_first(), b.drop_first());
        if a.drop_first() == b.drop_first() {
            assert(a =~= seq![a[0]] + a.drop_first());
            assert(b =~= seq![b[0]] + b.drop_first());
        }
    } else if a.len() > 0 && b.len() > 0 {
        assert((a[0] as int) != (b[0] as int));
    } else if a.len() == 0 && b.len() == 0 {
        assert(a =~= b);
    }
}

/// Whether `a` comes strictly before `b` in code point order, which is the
/// order of Rust strings.
pub fn text_less(a: &str, b: &str) -> (r: bool)
    ensures
        r == text_lt(a@, b@),
{
    let x = crate::text::chars_of(a);
    let y = crate::text::chars_of(b);
    let mut i: usize = 0;
    assert(a@.skip(0) =~= a@);
    assert(b@.skip(0) =~= b@);
    while i < x.len() && i < y.len()
        invariant
            i <= x@.len(),
            i <= y@.len(),
            x@ == a@,
            y@ == b@,
            text_lt(a@, b@) == text_lt(a@.skip(i as int), b@.skip(i as int)),
        decreases x@.len() - i,
    {
        if x[i] != y[i] {
            return x[i] < y[i];
        }
        assert(a@.skip(i as int).drop_first() =~= a@.skip(i as int + 1));
        assert(b@.skip(i as int).drop_first() =~= b@.skip(i as int + 1));
        i += 1;
    }
    i < y.len()
}

/// A strict order on the keys of a record type, by which records are sorted.
pub trait SortKey: Sized {
    spec fn key_lt(self, other: Self) -> bool;

    proof fn lemma_key_lt_irreflexive(a: Self)
        ensures
            !a.key_lt(a),
    ;

    proof fn lemma_key_lt_transitive(a: Self, b: Self, c: Self)
        requires
            a.key_lt(b),
            b.key_lt(c),
        ensures
            a.key_lt(c),
    ;

    fn key_less(&self, other: &Self) -> (r: bool)
        ensures
            r == self.key_lt(*other),
    ;
}

/// No record comes after one whose key is strictly smaller.
pub open spec fn sorted_by_key<T: SortKey>(s: Seq<T>) -> bool {
    forall|i: int, j: int| 0 <= i < j < s.len() ==> !(#[trigger] s[j]).key_lt(#[trigger] s[i])
}

/// Inserts `x` before the first record whose key is larger than its own.
fn insert_by_key<T: SortKey>(out: &mut Vec<T>, x: T) -> (p: usize)
    requires
        sorted_by_key(old(out)@),
    ensures
        sorted_by_key(final(out)@),
        final(out)@.to_multiset() == old(out)@.to_multiset().insert(x),
        final(out)@ == old(out)@.insert(insert_position(old(out)@, x, key_order::<T>()), x),
{
    let mut p: usize = 0;
    while p < out.len()
        invariant
            p <= out@.len(),
            forall|k: int| 0 <= k < p ==> !x.key_lt(#[trigger] out@[k]),
        ensures
            p <= out@.len(),
            forall|k: int| 0 <= k < p ==> !x.key_lt(#[trigger] out@[k]),
            p == out@.len() || x.key_lt(out@[p as int]),
        decreases out@.len() - p,
    {
        if x.key_less(&out[p]) {
            break;
        }
        p += 1;
    }
    let ghost before = out@;
    proof {
        lemma_insert_position(before, x, p as int);
        assert forall|k: int| p <= k < before.len() implies !(#[trigger] before[k]).key_lt(x) by {
            if before[k].key_lt(x) {
                T::lemma_key_lt_transitive(before[k], x, before[p as int]);
                if k == p {
                    T::lemma_key_lt_irreflexive(before[k]);
                }
            }
        }
        vstd::seq_lib::to_multiset_insert(before, p as int, x);
    }
    out.insert(p, x);
    proof {
        let s = out@;
        assert(s == before.insert(p as int, x));
        assert forall|i: int, j: int| 0 <= i < j < s.len() implies !(#[trigger] s[j]).key_lt(
            #[trigger] s[i],
        ) by {
            if j < p {
                assert(s[i] == before[i] && s[j] == before[j]);
            } else if j == p {
                assert(s[i] == before[i]);
            } else if i == p {
                assert(s[j] == before[j - 1]);
            } else if i < p {
                assert(s[i] == before[i] && s[j] == before[j - 1]);
            } else {
                assert(s[i] == before[i - 1] && s[j] == before[j - 1]);
            }
        }
    }
    p
}

/// Where an insertion sort by the strict order `lt` puts `x` among `s`:
/// before the first element larger than `x`, so after every element that is
/// not.
pub open spec fn insert_position<V>(s: Seq<V>, x: V, lt: spec_fn(V, V) -> bool) -> int
    decreases s.len(),
{
    if s.len() == 0 {
        0
    } else if lt(x, s[0]) {
        0
    } else {
        1 + insert_position(s.drop_first(), x, lt)
    }
}

/// `s` sorted by the strict order `lt`, equal elements in the order they
/// come in `s`: what a stable sort gives.
pub open spec fn stable_sort<V>(s: Seq<V>, lt: spec_fn(V, V) -> bool) -> Seq<V>
    decreases s.len(),
{
    if s.len() == 0 {
        Seq::empty()
    } else {
        let r = stable_sort(s.drop_last(), lt);
        r.insert(insert_position(r, s.last(), lt), s.last())
    }
}

/// The order of records by key.
pub open spec fn key_order<T: SortKey>() -> spec_fn(T, T) -> bool {
    |a: T, b: T| a.key_lt(b)
}

proof fn lemma_insert_position<T: SortKey>(s: Seq<T>, x: T, p: int)
    requires
        0 <= p <= s.len(),
        forall|k: int| 0 <= k < p ==> !x.key_lt(#[trigger] s[k]),
        p == s.len() || x.key_lt(s[p]),
    ensures
        insert_position(s, x, key_order::<T>()) == p,
    decreases s.len(),
{
    if s.len() > 0 && p > 0 {
        assert(!x.key_lt(s[0]));
        assert forall|k: int| 0 <= k < p - 1 implies !x.key_lt(#[trigger] s.drop_first()[k]) by {
            assert(s.drop_first()[k] == s[k + 1]);
        }
        if p < s.len() {
            assert(s.drop_first()[p - 1] == s[p]);
        }
        lemma_insert_position(s.drop_first(), x, p - 1);
    }
}

proof fn lemma_insert_position_views<T, V>(
    s: Seq<T>,
    x: T,
    view: spec_fn(T) -> V,
    lt: spec_fn(T, T) -> bool,
    view_lt: spec_fn(V, V) -> bool,
)
    requires
        forall|a: T, b: T| #[trigger] lt(a, b) == view_lt(view(a), view(b)),
    ensures
        insert_position(s, x, lt) == insert_position(s.map_values(view), view(x), view_lt),
        0 <= insert_position(s, x, lt) <= s.len(),
    decreases s.len(),
{
    if s.len() > 0 {
        assert(s.map_values(view)[0] == view(s[0]));
        assert(s.map_values(view).drop_first() =~= s.drop_first().map_values(view));
        assert(lt(x, s[0]) == view_lt(view(x), view(s[0])));
        lemma_insert_position_views(s.drop_first(), x, view, lt, view_lt);
    }
}

/// Sorting commutes with taking views, when the order of the records is the
/// order of their views.
pub proof fn lemma_stable_sort_views<T, V>(
    s: Seq<T>,
    view: spec_fn(T) -> V,
    lt: spec_fn(T, T) -> bool,
    view_lt: spec_fn(V, V) -> bool,
)
    requires
        forall|a: T, b: T| #[trigger] lt(a, b) == view_lt(view(a), view(b)),
    ensures
        stable_sort(s, lt).map_values(view) == stable_sort(s.map_values(view), view_lt),
        stable_sort(s, lt).len() == s.len(),
    decreases s.len(),
{
    if s.len() > 0 {
        let r = stable_sort(s.drop_last(), lt);
        lemma_stable_sort_views(s.drop_last(), view, lt, view_lt);
        assert(s.map_values(view).drop_last() =~= s.drop_last().map_values(view));
        assert(s.map_values(view).last() == view(s.last()));
        lemma_insert_position_views(r, s.last(), view, lt, view_lt);
        let p = insert_position(r, s.last(), lt);
        assert(r.insert(p, s.last()).map_values(view) =~= r.map_values(view).insert(p, view(s.last())));
    }
}

/// The records of `v`, sorted by key; records with equal keys keep their
/// order.
pub fn sort_by_key<T: SortKey>(v: Vec<T>) -> (r: Vec<T>)
    ensures
        sorted_by_key(r@),
        r@.to_multiset() == v@.to_multiset(),
        r@ == stable_sort(v@, key_order::<T>()),
{
    let ghost all = v@;
    assert(all.len() == v.len());
    let mut rest = v;
    let mut out: Vec<T> = Vec::new();
    let mut i: usize = 0;
    assert(all.take(0) =~= Seq::<T>::empty());
    while rest.len() > 0
        invariant
            i <= all.len() <= usize::MAX,
            rest@ == all.skip(i as int),
            sorted_by_key(out@),
            out@.to_multiset() == all.take(i as int).to_multiset(),
            out@ == stable_sort(all.take(i as int), key_order::<T>()),
        decreases rest@.len(),
    {
        let ghost before = out@;
        let x = rest.remove(0);
        proof {
            assert(all.skip(i as int)[0] == all[i as int]);
            assert(rest@ =~= all.skip(i as int + 1));
            assert(all.take(i as int + 1) =~= all.take(i as int).push(x));
            assert(all.take(i as int + 1).drop_last() =~= all.take(i as int));
            vstd::seq_lib::to_multiset_build(all.take(i as int), x);
        }
        insert_by_key(&mut out, x);
        proof {
            broadcast use vstd::multiset::group_multiset_axioms;

            assert(out@.to_multiset() =~= all.take(i as int + 1).to_multiset());
        }
        i += 1;
    }
    proof {
        assert(all.take(i as int) =~= all);
    }
    out
}

pub open spec fn text_views(v: Seq<String>) -> Seq<Seq<char>> {
    v.map_values(|s: String| s@)
}

/// Strictly increasing in code point order, so each text once.
pub open spec fn strictly_sorted(s: Seq<Seq<char>>) -> bool {
    forall|i: int, j: int| 0 <= i < j < s.len() ==> text_lt(#[trigger] s[i], #[trigger] s[j])
}

/// The distinct texts of `values` in increasing order, as a sorted set
/// yields them.
pub fn sorted_text_set(values: &Vec<String>) -> (r: Vec<String>)
    ensures
        strictly_sorted(text_views(r@)),
        forall|t: Seq<char>| text_views(r@).contains(t) <==> text_views(values@).contains(t),
{
    let mut out: Vec<String> = Vec::new();
    let mut i: usize = 0;
    while i < values.len()
        invariant
            i <= values@.len(),
            strictly_sorted(text_views(out@)),
            forall|t: Seq<char>|
                text_views(out@).contains(t) <==> text_views(values@.take(i as int)).contains(t),
        decreases values@.len() - i,
    {
        let x = &values[i];
        let mut p: usize = 0;
        while p < out.len()
            invariant
                p <= out@.len(),
                forall|k: int| 0 <= k < p ==> !text_lt(x@, #[trigger] out@[k]@),
            ensures
                p <= out@.len(),
                forall|k: int| 0 <= k < p ==> !text_lt(x@, #[trigger] out@[k]@),
                p == out@.len() || text_lt(x@, out@[p as int]@),
            decreases out@.len() - p,
        {
            if text_less(x.as_str(), out[p].as_str()) {
                break;
            }
            p += 1;
        }
        let ghost before = text_views(out@);
        proof {
            assert(text_views(values@.take(i as int + 1)) =~= text_views(values@.take(i as int)).push(
                x@,
            ));
        }
        if p > 0 && crate::text::str_eq(out[p - 1].as_str(), x.as_str()) {
            proof {
                let prev = text_views(values@.take(i as int));
                assert(before[p - 1] == x@);
                assert forall|t: Seq<char>| before.contains(t) <==> prev.push(x@).contains(t) by {
                    if prev.push(x@).contains(t) && t != x@ {
                        let k = choose|k: int| 0 <= k < prev.push(x@).len() && prev.push(x@)[k] == t;
                        assert(prev.contains(t)) by {
                            assert(prev[k] == t);
                        }
                    }
                    if before.contains(t) {
                        assert(prev.contains(t));
                        let k = choose|k: int| 0 <= k < prev.len() && prev[k] == t;
                        assert(prev.push(x@)[k] == t);
                    }
                }
            }
        } else {
            proof {
                if p > 0 {
                    lemma_text_lt_trichotomy(x@, before[p - 1]);
                }
                assert forall|k: int| p <= k < before.len() implies text_lt(x@, #[trigger] before[k]) by {
                    lemma_text_lt_trichotomy(x@, before[p as int]);
                    if k > p {
                        assert(text_lt(before[p as int], before[k]));
                        lemma_text_lt_transitive(x@, before[p as int], before[k]);
                    }
                }
                assert forall|k: int| 0 <= k < p implies text_lt(#[trigger] before[k], x@) by {
                    if k < p - 1 {
                        assert(text_lt(before[k], before[p - 1]));
                        lemma_text_lt_transitive(before[k], before[p - 1], x@);
                    }
                }
            }
            out.insert(p, x.clone());
            proof {
                let s = text_views(out@);
                assert(s =~= before.insert(p as int, x@));
                assert forall|a: int, b: int| 0 <= a < b < s.len() implies text_lt(
                    #[trigger] s[a],
                    #[trigger] s[b],
                ) by {
                    if b < p {
                    } else if b == p {
                    } else if a == p {
                        assert(s[b] == before[b - 1]);
                    } else if a < p {
                        assert(s[b] == before[b - 1]);
                    } else {
                        assert(s[a] == before[a - 1] && s[b] == before[b - 1]);
                    }
                }
                let prev = text_views(values@.take(i as int));
                assert forall|t: Seq<char>| s.contains(t) <==> prev.push(x@).contains(t) by {
                    if s.contains(t) {
                        let k = choose|k: int| 0 <= k < s.len() && s[k] == t;
                        if t != x@ {
                            if k < p {
                                assert(before[k] == t);
                            } else {
                                assert(before[k - 1] == t);
                            }
                            assert(before.contains(t));
                            assert(prev.contains(t));
                            let m = choose|m: int| 0 <= m < prev.len() && prev[m] == t;
                            assert(prev.push(x@)[m] == t);
                        } else {
                            assert(prev.push(x@)[prev.len() as int] == t);
                        }
                    }
                    if prev.push(x@).contains(t) {
                        let k = choose|k: int| 0 <= k < prev.push(x@).len() && prev.push(x@)[k] == t;
                        if t == x@ {
                            assert(s[p as int] == t);
                        } else {
                            assert(prev[k] == t);
                            assert(before.contains(t));
                            let m = choose|m: int| 0 <= m < before.len() && before[m] == t;
                            if m < p {
                                assert(s[m] == t);
                            } else {
                                assert(s[m + 1] == t);
                            }
                        }
                    }
                }
            }
        }
        i += 1;
    }
    assert(values@.take(values@.len() as int) =~= values@);
    out
}

/// Sequences with the same elements, counted, still have the same elements
/// after mapping each through `f`.
pub proof fn lemma_map_values_multiset<A, B>(s1: Seq<A>, s2: Seq<A>, f: spec_fn(A) -> B)
    requires
        s1.to_multiset() == s2.to_multiset(),
    ensures
        s1.map_values(f).to_multiset() == s2.map_values(f).to_multiset(),
    decreases s1.len(),
{
    broadcast use vstd::seq_lib::group_to_multiset_ensures;
    broadcast use vstd::multiset::group_multiset_axioms;

    if s1.len() == 0 {
        assert(s2.to_multiset().len() == 0);
        assert(s2.len() == 0);
        assert(s1.map_values(f) =~= s2.map_values(f));
    } else {
        let x = s1.last();
        let rest = s1.drop_last();
        assert(s1 =~= rest.push(x));
        assert(s2.to_multiset().count(x) > 0);
        assert(s2.contains(x));
        let i = choose|i: int| 0 <= i < s2.len() && s2[i] == x;
        assert(s2.remove(i).to_multiset() =~= s2.to_multiset().remove(x));
        assert(rest.to_multiset() =~= s1.to_multiset().remove(x));
        lemma_map_values_multiset(rest, s2.remove(i), f);
        assert(s1.map_values(f) =~= rest.map_values(f).push(f(x)));
        assert(s2.remove(i).map_values(f) =~= s2.map_values(f).remove(i));
        assert(s2.map_values(f)[i] == f(x));
        assert(s2.map_values(f).to_multiset().count(f(x)) > 0) by {
            assert(s2.map_values(f).contains(f(x)));
        }
        assert(s1.map_values(f).to_multiset() =~= s2.map_values(f).to_multiset());
    }
}

} // verus!
