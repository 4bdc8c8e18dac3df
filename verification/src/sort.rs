//! A verified stable insertion sort over a string key, and the ordering
//! facts the hash contracts rest on.

use vstd::prelude::*;

verus! {

use crate::text::{
    lemma_lex_le_antisymmetric, lemma_lex_le_total, lemma_lex_le_transitive, lex_le,
};

/// A view that carries a character-sequence sort key.
pub trait ViewKey: Sized {
    /// The key this view sorts by.
    spec fn key(self) -> Seq<char>;
}

/// A record whose view carries a sort key and that can compare itself by
/// that key.
pub trait SortKey: View + Sized where Self::V: ViewKey {
    /// Compares two records by the keys of their views.
    fn key_le(&self, other: &Self) -> (r: bool)
        ensures
            r == lex_le(self@.key(), other@.key()),
    ;
}

/// The views of a sequence of records, element by element.
pub open spec fn views_of<T: View>(s: Seq<T>) -> Seq<T::V> {
    s.map_values(|t: T| t@)
}

/// How long the view sequence is.
pub broadcast proof fn lemma_views_of_len<T: View>(s: Seq<T>)
    ensures
        (#[trigger] views_of(s)).len() == s.len(),
{
}

/// How `views_of` reads element by element.
pub broadcast proof fn lemma_views_of_index<T: View>(s: Seq<T>, i: int)
    requires
        0 <= i < s.len(),
    ensures
        #[trigger] views_of(s)[i] == s[i]@,
{
}

/// Inserts `x` after every element whose key is not above `x`'s: the
/// insertion step of a stable sort.
pub open spec fn insert_sorted<V: ViewKey>(s: Seq<V>, x: V) -> Seq<V>
    decreases s.len(),
{
    if s.len() == 0 {
        seq![x]
    } else if lex_le(s.last().key(), x.key()) {
        s.push(x)
    } else {
        insert_sorted(s.subrange(0, s.len() - 1), x).push(s.last())
    }
}

/// The stable sort of a sequence by key: elements with equal keys keep
/// their source order.
pub open spec fn sort_by_key<V: ViewKey>(s: Seq<V>) -> Seq<V>
    decreases s.len(),
{
    if s.len() == 0 {
        s
    } else {
        insert_sorted(sort_by_key(s.subrange(0, s.len() - 1)), s[s.len() - 1])
    }
}

/// Whether a sequence is ordered by its keys.
pub open spec fn sorted_keys<V: ViewKey>(s: Seq<V>) -> bool {
    forall|i: int, j: int| 0 <= i < j < s.len() ==> lex_le(s[i].key(), s[j].key())
}

/// Whether no two elements share a key.
pub open spec fn distinct_keys<V: ViewKey>(s: Seq<V>) -> bool {
    forall|i: int, j: int| 0 <= i < j < s.len() ==> s[i].key() != s[j].key()
}

proof fn lemma_insert_sorted_split<V: ViewKey>(s: Seq<V>, x: V, j: int)
    requires
        0 <= j <= s.len(),
        forall|k: int| j <= k < s.len() ==> !lex_le(#[trigger] s[k].key(), x.key()),
        j > 0 ==> lex_le(s[j - 1].key(), x.key()),
    ensures
        insert_sorted(s, x) == s.subrange(0, j).push(x) + s.subrange(j, s.len() as int),
    decreases s.len(),
{
    if j == s.len() {
        if s.len() == 0 {
            assert(insert_sorted(s, x) =~= s.subrange(0, j).push(x) + s.subrange(
                j,
                s.len() as int,
            ));
        } else {
            assert(lex_le(s.last().key(), x.key()));
            assert(insert_sorted(s, x) =~= s.subrange(0, j).push(x) + s.subrange(
                j,
                s.len() as int,
            ));
        }
    } else {
        assert(!lex_le(s.last().key(), x.key()));
        let d = s.subrange(0, s.len() - 1);
        assert(forall|k: int| j <= k < d.len() ==> !lex_le(#[trigger] d[k].key(), x.key()));
        if j > 0 {
            assert(d[j - 1] == s[j - 1]);
        }
        lemma_insert_sorted_split(d, x, j);
        assert(d.subrange(0, j) =~= s.subrange(0, j));
        assert(insert_sorted(s, x) =~= s.subrange(0, j).push(x) + s.subrange(j, s.len() as int));
    }
}

proof fn lemma_insert_sorted_ensures<V: ViewKey>(s: Seq<V>, x: V)
    requires
        sorted_keys(s),
    ensures
        sorted_keys(insert_sorted(s, x)),
        insert_sorted(s, x).to_multiset() == s.to_multiset().insert(x),
    decreases s.len(),
{
    broadcast use vstd::seq_lib::group_to_multiset_ensures;
    broadcast use vstd::multiset::group_multiset_axioms;

    let r = insert_sorted(s, x);
    if s.len() == 0 {
        assert(r =~= seq![x]);
        assert(seq![x] =~= Seq::<V>::empty().push(x));
        assert(r.to_multiset() =~= s.to_multiset().insert(x));
    } else if lex_le(s.last().key(), x.key()) {
        assert forall|i: int, j: int| 0 <= i < j < r.len() implies lex_le(
            r[i].key(),
            r[j].key(),
        ) by {
            if j == r.len() - 1 {
                if i < s.len() - 1 {
                    lemma_lex_le_transitive(s[i].key(), s.last().key(), x.key());
                }
            }
        }
    } else {
        let d = s.subrange(0, s.len() - 1);
        assert(forall|i: int, j: int|
            0 <= i < j < d.len() ==> lex_le(#[trigger] d[i].key(), #[trigger] d[j].key()));
        lemma_insert_sorted_ensures(d, x);
        let rd = insert_sorted(d, x);
        lemma_lex_le_total(s.last().key(), x.key());
        assert(lex_le(x.key(), s.last().key()));
        assert forall|i: int, j: int| 0 <= i < j < r.len() implies lex_le(
            r[i].key(),
            r[j].key(),
        ) by {
            if j == r.len() - 1 {
                // every element of rd came from d or is x itself; either
                // way its key is at or below the old last element's key
                assert(rd.to_multiset().contains(rd[i]));
                assert(d.to_multiset().insert(x).contains(rd[i]));
                if rd[i] == x {
                    assert(lex_le(x.key(), s.last().key()));
                } else {
                    assert(d.to_multiset().contains(rd[i]));
                    assert(d.contains(rd[i]));
                    let w = choose|w: int| 0 <= w < d.len() && d[w] == rd[i];
                    if w < d.len() - 1 {
                        lemma_lex_le_transitive(d[w].key(), d[d.len() - 1].key(), s.last().key());
                        assert(lex_le(s[w].key(), s.last().key()));
                    }
                }
            }
        }
        assert(d.push(s.last()) =~= s);
        assert(rd.push(s.last()).to_multiset() =~= s.to_multiset().insert(x));
        assert(r.to_multiset() =~= s.to_multiset().insert(x));
    }
}

/// What the sort yields: an ordering of the same elements, sorted by key.
pub proof fn lemma_sort_by_key_ensures<V: ViewKey>(s: Seq<V>)
    ensures
        sorted_keys(sort_by_key(s)),
        sort_by_key(s).to_multiset() == s.to_multiset(),
        sort_by_key(s).len() == s.len(),
    decreases s.len(),
{
    broadcast use vstd::seq_lib::group_to_multiset_ensures;
    broadcast use vstd::multiset::group_multiset_axioms;

    if s.len() == 0 {
    } else {
        let d = s.subrange(0, s.len() - 1);
        lemma_sort_by_key_ensures(d);
        lemma_insert_sorted_ensures(sort_by_key(d), s[s.len() - 1]);
        assert(d.push(s[s.len() - 1]) =~= s);
        assert(d.push(s[s.len() - 1]).to_multiset() =~= d.to_multiset().insert(s[s.len() - 1]));
        assert(sort_by_key(s).to_multiset() =~= s.to_multiset());
        vstd::seq_lib::to_multiset_len(sort_by_key(s));
        vstd::seq_lib::to_multiset_len(s);
        assert(sort_by_key(s).len() == s.len());
    }
}

/// Two sequences of the same elements, both sorted by key, with no key
/// repeated, are the same sequence: the ground of every order-invariance
/// claim about the structure hashes.
pub proof fn lemma_sorted_unique_by_key<V: ViewKey>(a: Seq<V>, b: Seq<V>)
    requires
        sorted_keys(a),
        sorted_keys(b),
        distinct_keys(a),
        a.to_multiset() == b.to_multiset(),
    ensures
        a == b,
    decreases a.len(),
{
    broadcast use vstd::seq_lib::group_to_multiset_ensures;
    broadcast use vstd::multiset::group_multiset_axioms;

    vstd::seq_lib::to_multiset_len(a);
    vstd::seq_lib::to_multiset_len(b);
    if a.len() == 0 {
        assert(b.len() == 0);
        assert(a =~= b);
    } else {
        assert(b.len() == a.len());
        assert(a.to_multiset().contains(a[0]));
        assert(b.to_multiset().contains(b[0]));
        assert(a.contains(b[0]));
        assert(b.contains(a[0]));
        let ia = choose|ia: int| 0 <= ia < a.len() && a[ia] == b[0];
        let ib = choose|ib: int| 0 <= ib < b.len() && b[ib] == a[0];
        if ia == 0 {
        } else if ib == 0 {
        } else {
            assert(lex_le(a[0].key(), a[ia].key()));
            assert(lex_le(b[0].key(), b[ib].key()));
            lemma_lex_le_antisymmetric(a[0].key(), b[0].key());
            assert(a[0].key() != a[ia].key());
            assert(false);
        }
        assert(a[0] == b[0]);
        let at = a.remove(0);
        let bt = b.remove(0);
        vstd::seq_lib::to_multiset_remove(a, 0);
        vstd::seq_lib::to_multiset_remove(b, 0);
        assert(at.to_multiset() == bt.to_multiset());
        assert(at =~= a.subrange(1, a.len() as int));
        assert(bt =~= b.subrange(1, b.len() as int));
        assert(forall|i: int, j: int|
            0 <= i < j < at.len() ==> lex_le(#[trigger] at[i].key(), #[trigger] at[j].key()));
        assert(forall|i: int, j: int|
            0 <= i < j < bt.len() ==> lex_le(#[trigger] bt[i].key(), #[trigger] bt[j].key()));
        assert(forall|i: int, j: int|
            0 <= i < j < at.len() ==> #[trigger] at[i].key() != #[trigger] at[j].key());
        lemma_sorted_unique_by_key(at, bt);
        assert forall|i: int| 0 <= i < a.len() implies a[i] == b[i] by {
            if i > 0 {
                assert(a[i] == at[i - 1]);
                assert(b[i] == bt[i - 1]);
            }
        }
        assert(a =~= b);
    }
}

/// Sorts a vector of records by their key, stably: the views of the result
/// are exactly the stable sort of the views of the input.
#[verifier::loop_isolation(false)]
pub fn sort_records<T: SortKey>(v: Vec<T>) -> (r: Vec<T>) where T::V: ViewKey
    ensures
        views_of(r@) == sort_by_key(views_of(v@)),
{
    broadcast use lemma_views_of_len;
    broadcast use lemma_views_of_index;

    let ghost input: Seq<<T as View>::V> = views_of(v@);
    let ghost n = input.len();
    let mut src = v;
    let mut out: Vec<T> = Vec::new();
    proof {
        assert(views_of(out@) =~= Seq::<<T as View>::V>::empty());
        assert(input.subrange(0, 0) =~= Seq::<<T as View>::V>::empty());
        assert(views_of(src@) =~= input.subrange(0, n as int));
    }
    while src.len() > 0
        invariant
            out@.len() + src@.len() == n,
            views_of(src@) =~= input.subrange(n as int - src@.len(), n as int),
            views_of(out@) == sort_by_key(input.subrange(0, n as int - src@.len())),
        decreases src@.len(),
    {
        let ghost i = n as int - src@.len();
        let ghost pre = src@;
        let x = src.remove(0);
        proof {
            lemma_views_of_len(pre);
            lemma_views_of_index(pre, 0);
            assert(views_of(pre) == input.subrange(i, n as int));
            assert(pre.len() == n - i);
            assert(input.subrange(i, n as int)[0] == input[i]);
            assert(views_of(pre)[0] == pre[0]@);
            assert(x == pre[0]);
            assert(x@ == input[i]);
            assert(src@ =~= pre.subrange(1, pre.len() as int));
            assert forall|k: int| 0 <= k < src@.len() implies #[trigger] src@[k]@ == input.subrange(
                i + 1,
                n as int,
            )[k] by {
                assert(src@[k] == pre[k + 1]);
                assert(views_of(pre)[k + 1] == pre[k + 1]@);
                assert(views_of(pre)[k + 1] == input.subrange(i, n as int)[k + 1]);
                assert(input.subrange(i, n as int)[k + 1] == input[i + 1 + k]);
            }
            assert(views_of(src@) =~= input.subrange(i + 1, n as int));
        }
        let ghost sorted_prefix: Seq<<T as View>::V> = views_of(out@);
        // scan from the end for the insertion point
        let mut j = out.len();
        while j > 0 && !out[j - 1].key_le(&x)
            invariant
                0 <= j <= out@.len(),
                sorted_prefix == views_of(out@),
                forall|k: int|
                    j <= k < sorted_prefix.len() ==> !lex_le(
                        (#[trigger] sorted_prefix[k]).key(),
                        x@.key(),
                    ),
            decreases j,
        {
            proof {
                assert(sorted_prefix[j - 1] == out@[j - 1]@);
            }
            j -= 1;
        }
        proof {
            if j > 0 {
                assert(sorted_prefix[j - 1] == out@[j - 1]@);
                assert(lex_le(sorted_prefix[j - 1].key(), x@.key()));
            }
            lemma_insert_sorted_split(sorted_prefix, x@, j as int);
        }
        let ghost out_pre = out@;
        out.insert(j, x);
        proof {
            assert forall|k: int| 0 <= k < out@.len() implies #[trigger] out@[k]@ == (
            sorted_prefix.subrange(0, j as int).push(x@) + sorted_prefix.subrange(
                j as int,
                sorted_prefix.len() as int,
            ))[k] by {
                if k < j {
                    assert(out@[k] == out_pre[k]);
                    assert(sorted_prefix[k] == out_pre[k]@);
                } else if k == j {
                    assert(out@[k] == x);
                } else {
                    assert(out@[k] == out_pre[k - 1]);
                    assert(sorted_prefix[k - 1] == out_pre[k - 1]@);
                }
            }
            assert(views_of(out@) =~= sorted_prefix.subrange(0, j as int).push(x@)
                + sorted_prefix.subrange(j as int, sorted_prefix.len() as int));
            assert(views_of(out@) == insert_sorted(sorted_prefix, x@));
            assert(input.subrange(0, i + 1).subrange(0, i) =~= input.subrange(0, i));
            assert(input.subrange(0, i + 1)[i] == input[i]);
            assert(views_of(out@) == sort_by_key(input.subrange(0, i + 1)));
        }
    }
    proof {
        assert(input.subrange(0, n as int) =~= input);
    }
    out
}


/// Pairwise-distinct keys survive any reordering of the same elements.
proof fn lemma_distinct_keys_permuted<V: ViewKey>(s: Seq<V>, t: Seq<V>)
    requires
        distinct_keys(s),
        s.to_multiset() == t.to_multiset(),
    ensures
        distinct_keys(t),
{
    broadcast use vstd::seq_lib::group_to_multiset_ensures;
    broadcast use vstd::multiset::group_multiset_axioms;

    assert(s.no_duplicates()) by {
        assert forall|i: int, j: int|
            0 <= i < s.len() && 0 <= j < s.len() && i != j implies s[i] != s[j] by {
            if i < j {
                assert(s[i].key() != s[j].key());
            } else {
                assert(s[j].key() != s[i].key());
            }
        }
    }
    s.lemma_multiset_has_no_duplicates();
    t.lemma_multiset_has_no_duplicates_conv();
    assert forall|i: int, j: int| 0 <= i < j < t.len() implies (#[trigger] t[i]).key() != (
    #[trigger] t[j]).key() by {
        assert(t[i] != t[j]);
        assert(t.to_multiset().contains(t[i]));
        assert(t.to_multiset().contains(t[j]));
        assert(s.contains(t[i]));
        assert(s.contains(t[j]));
        let p = choose|p: int| 0 <= p < s.len() && s[p] == t[i];
        let q = choose|q: int| 0 <= q < s.len() && s[q] == t[j];
        assert(p != q);
        if p < q {
            assert(s[p].key() != s[q].key());
        } else {
            assert(s[q].key() != s[p].key());
        }
    }
}

/// Sorting by key erases the source order: two orderings of the same
/// elements, with no key repeated, sort to the same sequence.
pub proof fn lemma_sort_order_invariant<V: ViewKey>(s1: Seq<V>, s2: Seq<V>)
    requires
        distinct_keys(s1),
        s1.to_multiset() == s2.to_multiset(),
    ensures
        sort_by_key(s1) == sort_by_key(s2),
{
    lemma_sort_by_key_ensures(s1);
    lemma_sort_by_key_ensures(s2);
    lemma_distinct_keys_permuted(s1, sort_by_key(s1));
    lemma_sorted_unique_by_key(sort_by_key(s1), sort_by_key(s2));
}

} // verus!

