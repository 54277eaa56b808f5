use vstd::prelude::*;
use crate::sort::{insert_sorted, sorted_by};

verus! {

/// The first position of `s` whose element satisfies `p`.
pub open spec fn first_index<T>(s: Seq<T>, p: spec_fn(T) -> bool) -> Option<int>
    decreases s.len(),
{
    if s.len() == 0 {
        None
    } else {
        match first_index(s.drop_last(), p) {
            Some(j) => Some(j),
            None => if p(s.last()) { Some(s.len() - 1) } else { None },
        }
    }
}

/// What `first_index` gives: a position whose element satisfies `p` and
/// before which none does; or, when there is none, no such element at all.
pub proof fn lemma_first_index<T>(s: Seq<T>, p: spec_fn(T) -> bool)
    ensures
        first_index(s, p) matches Some(j) ==> {
            &&& 0 <= j < s.len()
            &&& p(s[j])
            &&& forall|k: int| 0 <= k < j ==> !p(#[trigger] s[k])
        },
        first_index(s, p) is None ==> forall|k: int| 0 <= k < s.len() ==> !p(#[trigger] s[k]),
    decreases s.len(),
{
    if s.len() > 0 {
        let t = s.drop_last();
        lemma_first_index(t, p);
        match first_index(t, p) {
            Some(j) => {
                assert(t[j] == s[j]);
                assert forall|k: int| 0 <= k < j implies !p(#[trigger] s[k]) by {
                    assert(t[k] == s[k]);
                }
            },
            None => {
                assert forall|k: int| 0 <= k < s.len() - 1 implies !p(#[trigger] s[k]) by {
                    assert(t[k] == s[k]);
                }
            },
        }
    }
}

/// The first position is determined by where `p` first holds.
pub proof fn lemma_first_index_at<T>(s: Seq<T>, p: spec_fn(T) -> bool, j: int)
    requires
        0 <= j < s.len(),
        p(s[j]),
        forall|k: int| 0 <= k < j ==> !p(#[trigger] s[k]),
    ensures
        first_index(s, p) == Some(j),
{
    lemma_first_index(s, p);
    match first_index(s, p) {
        Some(i) => {
            if i < j {
                assert(!p(s[i]));
            } else if i > j {
                assert(!p(s[j]));
            }
        },
        None => {
            assert(!p(s[j]));
        },
    }
}

/// No position when no element satisfies `p`.
pub proof fn lemma_first_index_none<T>(s: Seq<T>, p: spec_fn(T) -> bool)
    requires
        forall|k: int| 0 <= k < s.len() ==> !p(#[trigger] s[k]),
    ensures
        first_index(s, p) is None,
{
    lemma_first_index(s, p);
}

proof fn lemma_insert_sorted_map<A, B>(
    s: Seq<A>,
    x: A,
    le_a: spec_fn(A, A) -> bool,
    le_b: spec_fn(B, B) -> bool,
    f: spec_fn(A) -> B,
)
    requires
        forall|a: A, b: A| #[trigger] le_a(a, b) == le_b(f(a), f(b)),
    ensures
        insert_sorted(s, x, le_a).map_values(f) == insert_sorted(s.map_values(f), f(x), le_b),
    decreases s.len(),
{
    let sm = s.map_values(f);
    if s.len() == 0 {
        assert(seq![x].map_values(f) =~= seq![f(x)]);
    } else {
        assert(sm[0] == f(s[0]));
        assert(le_a(s[0], x) == le_b(f(s[0]), f(x)));
        if !le_a(s[0], x) {
            assert((seq![x] + s).map_values(f) =~= seq![f(x)] + sm);
        } else {
            lemma_insert_sorted_map(s.drop_first(), x, le_a, le_b, f);
            assert(s.drop_first().map_values(f) =~= sm.drop_first());
            assert((seq![s[0]] + insert_sorted(s.drop_first(), x, le_a)).map_values(f) =~= seq![
                f(s[0])
            ] + insert_sorted(s.drop_first(), x, le_a).map_values(f));
        }
    }
}

/// Ordering commutes with a map that carries the order over.
pub proof fn lemma_sorted_by_map<A, B>(
    s: Seq<A>,
    le_a: spec_fn(A, A) -> bool,
    le_b: spec_fn(B, B) -> bool,
    f: spec_fn(A) -> B,
)
    requires
        forall|a: A, b: A| #[trigger] le_a(a, b) == le_b(f(a), f(b)),
    ensures
        sorted_by(s, le_a).map_values(f) == sorted_by(s.map_values(f), le_b),
    decreases s.len(),
{
    if s.len() == 0 {
        assert(Seq::<A>::empty().map_values(f) =~= Seq::<B>::empty());
        assert(s.map_values(f) =~= Seq::<B>::empty());
    } else {
        lemma_sorted_by_map(s.drop_last(), le_a, le_b, f);
        lemma_insert_sorted_map(sorted_by(s.drop_last(), le_a), s.last(), le_a, le_b, f);
        assert(s.map_values(f).drop_last() =~= s.drop_last().map_values(f));
        assert(s.map_values(f).last() == f(s.last()));
    }
}

} // verus!
