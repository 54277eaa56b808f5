use vstd::prelude::*;

verus! {

/// `x` put into `s` in front of the first element that does not come
/// before-or-with `x`; at the end when there is none.
pub open spec fn insert_sorted<T>(s: Seq<T>, x: T, le: spec_fn(T, T) -> bool) -> Seq<T>
    decreases s.len(),
{
    if s.len() == 0 {
        seq![x]
    } else if !le(s[0], x) {
        seq![x] + s
    } else {
        seq![s[0]] + insert_sorted(s.drop_first(), x, le)
    }
}

/// The stable ordering of `s` by `le`: each element, in turn, is put after
/// every element already placed that comes before-or-with it.
pub open spec fn sorted_by<T>(s: Seq<T>, le: spec_fn(T, T) -> bool) -> Seq<T>
    decreases s.len(),
{
    if s.len() == 0 {
        Seq::empty()
    } else {
        insert_sorted(sorted_by(s.drop_last(), le), s.last(), le)
    }
}

/// `le` is a total preorder.
pub open spec fn total_preorder<T>(le: spec_fn(T, T) -> bool) -> bool {
    &&& forall|a: T, b: T| #[trigger] le(a, b) || le(b, a)
    &&& forall|a: T, b: T, c: T| #[trigger] le(a, b) && #[trigger] le(b, c) ==> le(a, c)
}

/// Every element comes before-or-with every later one.
pub open spec fn is_sorted<T>(s: Seq<T>, le: spec_fn(T, T) -> bool) -> bool {
    forall|i: int, j: int| 0 <= i < j < s.len() ==> le(#[trigger] s[i], #[trigger] s[j])
}

/// Each element comes before-or-with the one right after it.
pub open spec fn adjacent_sorted<T>(s: Seq<T>, le: spec_fn(T, T) -> bool) -> bool {
    forall|i: int, j: int| 0 <= i && j == i + 1 && j < s.len() ==> le(#[trigger] s[i], #[trigger] s[j])
}

/// Whether each answer `false` of the comparison `le` for two elements
/// comes with the spec order holding the other way round.
pub open spec fn answers_total<T, F: Fn(&T, &T) -> bool>(le: F, spec_le: spec_fn(T, T) -> bool) -> bool {
    forall|a: &T, b: &T, o: bool| #[trigger] le.ensures((a, b), o) && !o ==> spec_le(*b, *a)
}

proof fn lemma_insert_adjacent<T>(s: Seq<T>, x: T, le: spec_fn(T, T) -> bool, j: int)
    requires
        adjacent_sorted(s, le),
        0 <= j <= s.len(),
        j > 0 ==> le(s[j - 1], x),
        j < s.len() ==> le(x, s[j]),
    ensures
        adjacent_sorted(s.take(j) + seq![x] + s.skip(j), le),
{
    let r = s.take(j) + seq![x] + s.skip(j);
    assert forall|i: int, k: int| 0 <= i && k == i + 1 && k < r.len() implies le(#[trigger] r[i], #[trigger] r[k]) by {
        if k < j {
            assert(r[i] == s[i] && r[k] == s[k]);
        } else if k == j {
            assert(r[i] == s[j - 1] && r[k] == x);
        } else if i == j {
            assert(r[i] == x && r[k] == s[j]);
        } else {
            assert(r[i] == s[i - 1] && r[k] == s[k - 1]);
        }
    }
}

proof fn lemma_insert_at<T>(s: Seq<T>, x: T, le: spec_fn(T, T) -> bool, j: int)
    requires
        0 <= j <= s.len(),
        forall|k: int| 0 <= k < j ==> le(#[trigger] s[k], x),
        j < s.len() ==> !le(s[j], x),
    ensures
        insert_sorted(s, x, le) == s.take(j) + seq![x] + s.skip(j),
    decreases j,
{
    if j == 0 {
        if s.len() == 0 {
            assert(s.take(0) + seq![x] + s.skip(0) =~= seq![x]);
        } else {
            assert(s.take(0) + seq![x] + s.skip(0) =~= seq![x] + s);
        }
    } else {
        let t = s.drop_first();
        assert forall|k: int| 0 <= k < j - 1 implies le(#[trigger] t[k], x) by {
            assert(t[k] == s[k + 1]);
        }
        if j - 1 < t.len() {
            assert(t[j - 1] == s[j]);
        }
        lemma_insert_at(t, x, le, j - 1);
        assert(seq![s[0]] + (t.take(j - 1) + seq![x] + t.skip(j - 1)) =~= s.take(j) + seq![x]
            + s.skip(j));
    }
}

proof fn lemma_insert_len<T>(s: Seq<T>, x: T, le: spec_fn(T, T) -> bool)
    ensures
        insert_sorted(s, x, le).len() == s.len() + 1,
    decreases s.len(),
{
    if s.len() > 0 && le(s[0], x) {
        lemma_insert_len(s.drop_first(), x, le);
    }
}

/// The ordering keeps the number of elements.
pub proof fn lemma_sorted_by_len<T>(s: Seq<T>, le: spec_fn(T, T) -> bool)
    ensures
        sorted_by(s, le).len() == s.len(),
    decreases s.len(),
{
    if s.len() > 0 {
        lemma_sorted_by_len(s.drop_last(), le);
        lemma_insert_len(sorted_by(s.drop_last(), le), s.last(), le);
    }
}

proof fn lemma_insert_multiset<T>(s: Seq<T>, x: T, le: spec_fn(T, T) -> bool)
    ensures
        insert_sorted(s, x, le).to_multiset() == s.to_multiset().insert(x),
    decreases s.len(),
{
    broadcast use vstd::seq_lib::group_to_multiset_ensures;

    if s.len() == 0 {
        assert(seq![x] =~= Seq::<T>::empty().push(x));
    } else if !le(s[0], x) {
        vstd::seq_lib::lemma_multiset_commutative(seq![x], s);
        assert(seq![x] =~= Seq::<T>::empty().push(x));
    } else {
        let t = s.drop_first();
        lemma_insert_multiset(t, x, le);
        vstd::seq_lib::lemma_multiset_commutative(seq![s[0]], insert_sorted(t, x, le));
        vstd::seq_lib::lemma_multiset_commutative(seq![s[0]], t);
        assert(seq![s[0]] + t =~= s);
        assert(seq![s[0]] =~= Seq::<T>::empty().push(s[0]));
    }
}

/// The ordering is a permutation: it holds each element as often as `s` does.
pub proof fn lemma_sorted_by_permutation<T>(s: Seq<T>, le: spec_fn(T, T) -> bool)
    ensures
        sorted_by(s, le).to_multiset() == s.to_multiset(),
    decreases s.len(),
{
    broadcast use vstd::seq_lib::group_to_multiset_ensures;

    if s.len() > 0 {
        lemma_sorted_by_permutation(s.drop_last(), le);
        lemma_insert_multiset(sorted_by(s.drop_last(), le), s.last(), le);
        assert(s.drop_last().push(s.last()) =~= s);
    }
}

proof fn lemma_insert_keeps_sorted<T>(s: Seq<T>, x: T, le: spec_fn(T, T) -> bool)
    requires
        total_preorder(le),
        is_sorted(s, le),
    ensures
        is_sorted(insert_sorted(s, x, le), le),
        insert_sorted(s, x, le).to_multiset() == s.to_multiset().insert(x),
    decreases s.len(),
{
    lemma_insert_multiset(s, x, le);
    if s.len() == 0 {
    } else if !le(s[0], x) {
        let r = seq![x] + s;
        assert(le(x, s[0]));
        assert forall|i: int, j: int| 0 <= i < j < r.len() implies le(#[trigger] r[i], #[trigger] r[j]) by {
            if i == 0 {
                if j > 1 {
                    assert(le(s[0], s[j - 1]));
                }
            } else {
                assert(r[i] == s[i - 1] && r[j] == s[j - 1]);
            }
        }
    } else {
        let t = s.drop_first();
        assert(is_sorted(t, le)) by {
            assert forall|i: int, j: int| 0 <= i < j < t.len() implies le(#[trigger] t[i], #[trigger] t[j]) by {
                assert(t[i] == s[i + 1] && t[j] == s[j + 1]);
            }
        }
        lemma_insert_keeps_sorted(t, x, le);
        let it = insert_sorted(t, x, le);
        let r = seq![s[0]] + it;
        // every element of `it` is an element of `t` or `x`, each after s[0]
        assert forall|k: int| 0 <= k < it.len() implies le(s[0], #[trigger] it[k]) by {
            broadcast use vstd::seq_lib::group_to_multiset_ensures;

            assert(it.to_multiset().count(it[k]) > 0);
            assert(it.contains(it[k]));
            if it[k] == x {
            } else {
                assert(t.to_multiset().count(it[k]) > 0);
                assert(t.contains(it[k]));
                let m = choose|m: int| 0 <= m < t.len() && t[m] == it[k];
                assert(t[m] == s[m + 1]);
            }
        }
        assert forall|i: int, j: int| 0 <= i < j < r.len() implies le(#[trigger] r[i], #[trigger] r[j]) by {
            if i == 0 {
                assert(r[j] == it[j - 1]);
            } else {
                assert(r[i] == it[i - 1] && r[j] == it[j - 1]);
            }
        }
    }
}

/// Every element comes before-or-with every later one by `le1`, and by
/// `le2` among those that `le1` ranks alike.
pub open spec fn sorted_then<T>(s: Seq<T>, le1: spec_fn(T, T) -> bool, le2: spec_fn(T, T) -> bool) -> bool {
    forall|i: int, j: int|
        0 <= i < j < s.len() ==> le1(#[trigger] s[i], #[trigger] s[j]) && (le1(s[j], s[i]) ==> le2(s[i], s[j]))
}

proof fn lemma_insert_sorted_then<T>(
    s: Seq<T>,
    x: T,
    le1: spec_fn(T, T) -> bool,
    le2: spec_fn(T, T) -> bool,
)
    requires
        total_preorder(le1),
        sorted_then(s, le1, le2),
        forall|k: int| 0 <= k < s.len() ==> le2(#[trigger] s[k], x),
    ensures
        sorted_then(insert_sorted(s, x, le1), le1, le2),
    decreases s.len(),
{
    lemma_insert_multiset(s, x, le1);
    if s.len() == 0 {
    } else if !le1(s[0], x) {
        let r = seq![x] + s;
        assert(le1(x, s[0]));
        assert forall|i: int, j: int| 0 <= i < j < r.len() implies le1(#[trigger] r[i], #[trigger] r[j]) && (
        le1(r[j], r[i]) ==> le2(r[i], r[j])) by {
            if i == 0 {
                if j > 1 {
                    assert(le1(s[0], s[j - 1]));
                }
            } else {
                assert(r[i] == s[i - 1] && r[j] == s[j - 1]);
            }
        }
    } else {
        let t = s.drop_first();
        assert forall|i: int, j: int| 0 <= i < j < t.len() implies le1(#[trigger] t[i], #[trigger] t[j]) && (
        le1(t[j], t[i]) ==> le2(t[i], t[j])) by {
            assert(t[i] == s[i + 1] && t[j] == s[j + 1]);
        }
        assert forall|k: int| 0 <= k < t.len() implies le2(#[trigger] t[k], x) by {
            assert(t[k] == s[k + 1]);
        }
        lemma_insert_sorted_then(t, x, le1, le2);
        lemma_insert_multiset(t, x, le1);
        let it = insert_sorted(t, x, le1);
        let r = seq![s[0]] + it;
        assert forall|k: int| 0 <= k < it.len() implies le1(s[0], #[trigger] it[k]) && (le1(it[k], s[0])
            ==> le2(s[0], it[k])) by {
            broadcast use vstd::seq_lib::group_to_multiset_ensures;

            assert(it.to_multiset().count(it[k]) > 0);
            if it[k] == x {
                assert(le2(s[0], x));
            } else {
                assert(t.to_multiset().count(it[k]) > 0);
                assert(t.contains(it[k]));
                let m = choose|m: int| 0 <= m < t.len() && t[m] == it[k];
                assert(t[m] == s[m + 1]);
            }
        }
        assert forall|i: int, j: int| 0 <= i < j < r.len() implies le1(#[trigger] r[i], #[trigger] r[j]) && (
        le1(r[j], r[i]) ==> le2(r[i], r[j])) by {
            if i == 0 {
                assert(r[j] == it[j - 1]);
            } else {
                assert(r[i] == it[i - 1] && r[j] == it[j - 1]);
            }
        }
    }
}

/// Ordering by a total preorder `le1` a sequence already sorted by `le2`
/// keeps the `le2` order among the elements that `le1` ranks alike.
pub proof fn lemma_sorted_by_then<T>(s: Seq<T>, le1: spec_fn(T, T) -> bool, le2: spec_fn(T, T) -> bool)
    requires
        total_preorder(le1),
        is_sorted(s, le2),
    ensures
        sorted_then(sorted_by(s, le1), le1, le2),
    decreases s.len(),
{
    if s.len() > 0 {
        let p = s.drop_last();
        assert forall|i: int, j: int| 0 <= i < j < p.len() implies le2(#[trigger] p[i], #[trigger] p[j]) by {
            assert(p[i] == s[i] && p[j] == s[j]);
        }
        lemma_sorted_by_then(p, le1, le2);
        let t = sorted_by(p, le1);
        assert forall|k: int| 0 <= k < t.len() implies le2(#[trigger] t[k], s.last()) by {
            broadcast use vstd::seq_lib::group_to_multiset_ensures;

            lemma_sorted_by_permutation(p, le1);
            assert(t.to_multiset().count(t[k]) > 0);
            assert(p.contains(t[k]));
            let m = choose|m: int| 0 <= m < p.len() && p[m] == t[k];
            assert(le2(s[m], s[s.len() - 1]));
        }
        lemma_insert_sorted_then(t, s.last(), le1, le2);
    }
}

/// Under a total preorder the ordering is sorted.
pub proof fn lemma_sorted_by_is_sorted<T>(s: Seq<T>, le: spec_fn(T, T) -> bool)
    requires
        total_preorder(le),
    ensures
        is_sorted(sorted_by(s, le), le),
    decreases s.len(),
{
    if s.len() > 0 {
        lemma_sorted_by_is_sorted(s.drop_last(), le);
        lemma_insert_keeps_sorted(sorted_by(s.drop_last(), le), s.last(), le);
    }
}

/// Orders `v` stably by `le`, whose results `spec_le` states. Where each
/// answer `false` also shows the order the other way round, every element
/// of the result comes before-or-with the one right after it.
pub fn sort_by_le<T, F: Fn(&T, &T) -> bool>(
    v: Vec<T>,
    le: F,
    Ghost(spec_le): Ghost<spec_fn(T, T) -> bool>,
) -> (r: Vec<T>)
    requires
        forall|a: &T, b: &T| #[trigger] le.requires((a, b)),
        forall|a: &T, b: &T, o: bool| le.ensures((a, b), o) ==> o == spec_le(*a, *b),
    ensures
        r@ == sorted_by(v@, spec_le),
        answers_total(le, spec_le) ==> adjacent_sorted(r@, spec_le),
{
    let ghost orig = v@;
    let n: usize = v.len();
    let mut input = v;
    let mut out: Vec<T> = Vec::new();
    let mut i: usize = 0;
    assert(orig.take(0) =~= Seq::<T>::empty());
    assert(orig.skip(0) =~= orig);
    while input.len() > 0
        invariant
            i <= orig.len(),
            orig.len() == n,
            input@ == orig.skip(i as int),
            out@ == sorted_by(orig.take(i as int), spec_le),
            answers_total(le, spec_le) ==> adjacent_sorted(out@, spec_le),
            forall|a: &T, b: &T| #[trigger] le.requires((a, b)),
            forall|a: &T, b: &T, o: bool| le.ensures((a, b), o) ==> o == spec_le(*a, *b),
        decreases input.len(),
    {
        assert(i < orig.len());
        let x = input.remove(0);
        let mut j: usize = 0;
        while j < out.len() && le(&out[j], &x)
            invariant
                j <= out.len(),
                forall|k: int| 0 <= k < j ==> spec_le(#[trigger] out@[k], x),
                forall|a: &T, b: &T| #[trigger] le.requires((a, b)),
                forall|a: &T, b: &T, o: bool| le.ensures((a, b), o) ==> o == spec_le(*a, *b),
            decreases out.len() - j,
        {
            j = j + 1;
        }
        proof {
            if answers_total(le, spec_le) {
                lemma_insert_adjacent(out@, x, spec_le, j as int);
            }
            lemma_insert_at(out@, x, spec_le, j as int);
            assert(orig.take(i + 1).drop_last() =~= orig.take(i as int));
            assert(orig.take(i + 1).last() == x);
        }
        out.insert(j, x);
        assert(out@ =~= sorted_by(orig.take(i + 1), spec_le));
        i = i + 1;
        assert(input@ =~= orig.skip(i as int));
    }
    assert(orig.take(i as int) =~= orig);
    out
}

/// Sorting neither loses nor adds an element.
pub proof fn lemma_sorted_by_contains<T>(s: Seq<T>, le: spec_fn(T, T) -> bool, x: T)
    ensures
        sorted_by(s, le).contains(x) <==> s.contains(x),
{
    broadcast use vstd::seq_lib::group_to_multiset_ensures;

    lemma_sorted_by_permutation(s, le);
    assert(sorted_by(s, le).to_multiset().count(x) == s.to_multiset().count(x));
}

} // verus!
