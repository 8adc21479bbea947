//! Pair lists and their flattened items.
//!
//! The pairing engine hands positions out in pairs, and the play layer
//! deals identities in pairs. The contracts of both speak of the items a
//! pair list holds, in order: the two slots of the first pair, then of the
//! second, and so on.

use vstd::prelude::*;

verus! {

use vstd::seq_lib::lemma_multiset_commutative;
use vstd::seq_lib::to_multiset_contains;
use vstd::seq_lib::to_multiset_len;
use vstd::seq_lib::to_multiset_remove;

/// The items of a pair list, flattened in order.
pub open spec fn pair_items<T>(ps: Seq<(T, T)>) -> Seq<T>
    decreases ps.len(),
{
    if ps.len() == 0 {
        Seq::empty()
    } else {
        pair_items(ps.drop_last()) + seq![ps.last().0, ps.last().1]
    }
}

/// Appending one pair appends exactly its two items.
pub proof fn lemma_pair_items_push<T>(ps: Seq<(T, T)>, p: (T, T))
    ensures
        pair_items(ps.push(p)) == pair_items(ps) + seq![p.0, p.1],
{
    assert(ps.push(p).drop_last() =~= ps);
    assert(ps.push(p).last() == p);
}

/// A pair list flattens to twice as many items as it has pairs.
pub proof fn lemma_pair_items_len<T>(ps: Seq<(T, T)>)
    ensures
        pair_items(ps).len() == 2 * ps.len(),
    decreases ps.len(),
{
    if ps.len() > 0 {
        lemma_pair_items_len(ps.drop_last());
    }
}

/// Removing one pair removes exactly its two items, as multisets.
proof fn lemma_pair_items_remove<T>(s: Seq<(T, T)>, i: int)
    requires
        0 <= i < s.len(),
    ensures
        pair_items(s.remove(i)).to_multiset().add(seq![s[i].0, s[i].1].to_multiset())
            =~= pair_items(s).to_multiset(),
    decreases s.len(),
{
    broadcast use vstd::multiset::group_multiset_axioms;

    if i == s.len() - 1 {
        assert(s.remove(i) =~= s.drop_last());
        lemma_multiset_commutative(pair_items(s.drop_last()), seq![s[i].0, s[i].1]);
    } else {
        let last = s.last();
        assert(s.remove(i).drop_last() =~= s.drop_last().remove(i));
        assert(s.remove(i).last() == last);
        lemma_pair_items_remove(s.drop_last(), i);
        lemma_multiset_commutative(
            pair_items(s.drop_last().remove(i)),
            seq![last.0, last.1],
        );
        lemma_multiset_commutative(pair_items(s.drop_last()), seq![last.0, last.1]);
        assert(pair_items(s.remove(i)).to_multiset().add(seq![s[i].0, s[i].1].to_multiset())
            =~= pair_items(s).to_multiset());
    }
}

/// Two pair lists holding the same pairs, counted with multiplicity,
/// flatten to the same items, counted with multiplicity.
pub proof fn lemma_pair_items_permutation<T>(ps: Seq<(T, T)>, qs: Seq<(T, T)>)
    requires
        ps.to_multiset() == qs.to_multiset(),
    ensures
        pair_items(ps).to_multiset() == pair_items(qs).to_multiset(),
    decreases ps.len(),
{
    broadcast use vstd::multiset::group_multiset_axioms;

    to_multiset_len(ps);
    to_multiset_len(qs);
    if ps.len() == 0 {
        assert(qs =~= Seq::<(T, T)>::empty());
    } else {
        let p = ps.last();
        assert(ps.contains(p));
        to_multiset_contains(ps, p);
        to_multiset_contains(qs, p);
        let i = choose|i: int| 0 <= i < qs.len() && qs[i] == p;
        to_multiset_remove(ps, ps.len() - 1);
        to_multiset_remove(qs, i);
        assert(ps.remove(ps.len() - 1) =~= ps.drop_last());
        assert(ps.drop_last().to_multiset() == qs.remove(i).to_multiset());
        lemma_pair_items_permutation(ps.drop_last(), qs.remove(i));
        lemma_pair_items_remove(qs, i);
        lemma_multiset_commutative(pair_items(ps.drop_last()), seq![p.0, p.1]);
        assert(pair_items(ps).to_multiset() =~= pair_items(qs).to_multiset());
    }
}

} // verus!
