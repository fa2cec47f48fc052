//! The stable lexical sort that fixes the order of every collection.

use crate::text::{lemma_lex_le_total, lex_le, str_le};
use vstd::prelude::*;

verus! {

/// A record with a textual sort key.
pub trait SortKey: DeepView + Sized {
    spec fn key_of(v: Self::V) -> Seq<char>;

    fn sort_key(&self) -> (r: &str)
        ensures
            r@ == Self::key_of(self.deep_view()),
    ;
}

/// Index of the first element whose key is greater than `k`, or the length.
pub open spec fn insert_point<T: SortKey>(s: Seq<T::V>, k: Seq<char>) -> int
    decreases s.len(),
{
    if s.len() == 0 {
        0
    } else if !lex_le(T::key_of(s[0]), k) {
        0
    } else {
        1 + insert_point::<T>(s.drop_first(), k)
    }
}

/// Insertion sort by key: each element goes after every earlier element whose
/// key is not greater, so equal keys keep their order.
pub open spec fn sorted_by_key<T: SortKey>(s: Seq<T::V>) -> Seq<T::V>
    decreases s.len(),
{
    if s.len() == 0 {
        s
    } else {
        let p = sorted_by_key::<T>(s.drop_last());
        p.insert(insert_point::<T>(p, T::key_of(s.last())), s.last())
    }
}

/// Adjacent keys never decrease.
pub open spec fn keys_ordered<T: SortKey>(s: Seq<T::V>) -> bool {
    forall|i: int| 0 <= i < s.len() - 1 ==> lex_le(T::key_of(#[trigger] s[i]), T::key_of(s[i + 1]))
}

proof fn lemma_insert_point<T: SortKey>(s: Seq<T::V>, k: Seq<char>)
    requires
        keys_ordered::<T>(s),
    ensures
        0 <= insert_point::<T>(s, k) <= s.len(),
        forall|j: int| 0 <= j < insert_point::<T>(s, k) ==> lex_le(T::key_of(#[trigger] s[j]), k),
        insert_point::<T>(s, k) < s.len() ==> !lex_le(T::key_of(s[insert_point::<T>(s, k)]), k),
    decreases s.len(),
{
    if s.len() > 0 && lex_le(T::key_of(s[0]), k) {
        let t = s.drop_first();
        assert forall|i: int| 0 <= i < t.len() - 1 implies lex_le(
            T::key_of(#[trigger] t[i]),
            T::key_of(t[i + 1]),
        ) by {
            assert(t[i] == s[i + 1] && t[i + 1] == s[i + 2]);
        }
        lemma_insert_point::<T>(t, k);
        assert forall|j: int| 0 <= j < insert_point::<T>(s, k) implies lex_le(
            T::key_of(#[trigger] s[j]),
            k,
        ) by {
            if j > 0 {
                assert(s[j] == t[j - 1]);
            }
        }
    }
}

/// Every collection this sort returns has its keys in lexical order.
pub proof fn lemma_sorted_by_key_ordered<T: SortKey>(s: Seq<T::V>)
    ensures
        keys_ordered::<T>(sorted_by_key::<T>(s)),
        sorted_by_key::<T>(s).len() == s.len(),
    decreases s.len(),
{
    if s.len() > 0 {
        let p = sorted_by_key::<T>(s.drop_last());
        lemma_sorted_by_key_ordered::<T>(s.drop_last());
        let x = s.last();
        let k = T::key_of(x);
        lemma_insert_point::<T>(p, k);
        let q = insert_point::<T>(p, k);
        let r = p.insert(q, x);
        assert forall|i: int| 0 <= i < r.len() - 1 implies lex_le(
            T::key_of(#[trigger] r[i]),
            T::key_of(r[i + 1]),
        ) by {
            if i + 1 < q {
                assert(r[i] == p[i] && r[i + 1] == p[i + 1]);
            } else if i + 1 == q {
                assert(r[i] == p[i] && r[i + 1] == x);
            } else if i == q {
                assert(r[i] == x && r[i + 1] == p[i]);
                lemma_lex_le_total(T::key_of(p[i]), k);
            } else {
                assert(r[i] == p[i - 1] && r[i + 1] == p[i]);
            }
        }
    }
}

/// Sorting neither adds, drops nor changes an element: it is a permutation.
pub proof fn lemma_sorted_by_key_permutes<T: SortKey>(s: Seq<T::V>)
    ensures
        sorted_by_key::<T>(s).to_multiset() == s.to_multiset(),
    decreases s.len(),
{
    if s.len() > 0 {
        let p = sorted_by_key::<T>(s.drop_last());
        lemma_sorted_by_key_permutes::<T>(s.drop_last());
        lemma_sorted_by_key_ordered::<T>(s.drop_last());
        lemma_insert_point::<T>(p, T::key_of(s.last()));
        let q = insert_point::<T>(p, T::key_of(s.last()));
        vstd::seq_lib::to_multiset_insert(p, q, s.last());
        vstd::seq_lib::to_multiset_build(s.drop_last(), s.last());
        assert(s =~= s.drop_last().push(s.last()));
    }
}

/// Every element of the sorted sequence comes from the input.
pub proof fn lemma_sorted_by_key_members<T: SortKey>(s: Seq<T::V>)
    ensures
        forall|i: int|
            0 <= i < sorted_by_key::<T>(s).len() ==> s.contains(#[trigger] sorted_by_key::<T>(s)[i]),
{
    let r = sorted_by_key::<T>(s);
    lemma_sorted_by_key_permutes::<T>(s);
    assert forall|i: int| 0 <= i < r.len() implies s.contains(#[trigger] r[i]) by {
        assert(r.to_multiset().count(r[i]) > 0) by {
            r.to_multiset_ensures();
            assert(r.contains(r[i]));
        }
        s.to_multiset_ensures();
    }
}

/// Sorts by key, stably.
pub fn sort_by_key<T: SortKey>(v: Vec<T>) -> (r: Vec<T>)
    ensures
        r.deep_view() == sorted_by_key::<T>(v.deep_view()),
{
    let ghost orig = v.deep_view();
    let mut rest = v;
    let mut out: Vec<T> = Vec::new();
    let n = rest.len();
    let mut i: usize = 0;
    proof {
        assert(orig.take(0) =~= Seq::<T::V>::empty());
        assert(out.deep_view() =~= Seq::<T::V>::empty());
        assert(rest.deep_view() =~= orig.skip(0));
    }
    while i < n
        invariant
            n == orig.len(),
            i <= n,
            rest.deep_view() == orig.skip(i as int),
            rest.len() == n - i,
            out.deep_view() == sorted_by_key::<T>(orig.take(i as int)),
            out.len() == i,
        decreases n - i,
    {
        let ghost before = rest@;
        proof {
            assert(rest.deep_view()[0] == before[0].deep_view());
            assert(orig.skip(i as int)[0] == orig[i as int]);
        }
        let x = rest.remove(0);
        proof {
            assert(x.deep_view() == orig[i as int]);
            assert forall|m: int| 0 <= m < rest.len() implies #[trigger] rest.deep_view()[m] == orig.skip(i + 1)[m] by {
                assert(rest@[m] == before[m + 1]);
                assert(orig.skip(i as int)[m + 1] == before[m + 1].deep_view());
            }
            assert(rest.deep_view() =~= orig.skip(i + 1));
            assert(orig.take(i + 1).drop_last() =~= orig.take(i as int));
            assert(orig.take(i + 1).last() == orig[i as int]);
        }
        let k = x.sort_key();
        let ghost p = out.deep_view();
        let mut j: usize = 0;
        assert(p.skip(0) =~= p);
        while j < out.len() && str_le(out[j].sort_key(), k)
            invariant
                j <= out.len(),
                p == out.deep_view(),
                k@ == T::key_of(x.deep_view()),
                insert_point::<T>(p, k@) == j + insert_point::<T>(p.skip(j as int), k@),
            decreases out.len() - j,
        {
            proof {
                assert(p.skip(j as int)[0] == out@[j as int].deep_view());
                assert(p.skip(j as int).drop_first() =~= p.skip(j + 1));
            }
            j = j + 1;
        }
        proof {
            if j < out.len() {
                assert(p.skip(j as int)[0] == out@[j as int].deep_view());
            }
        }
        out.insert(j, x);
        proof {
            assert(out.deep_view() =~= p.insert(j as int, orig[i as int]));
        }
        i = i + 1;
    }
    proof {
        assert(orig.take(n as int) =~= orig);
    }
    out
}

} // verus!
