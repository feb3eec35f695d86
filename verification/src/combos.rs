//! Choosing `k` items out of a sequence, in every possible way.

use crate::card::Card;
use vstd::multiset::*;
use vstd::prelude::*;
use vstd::seq_lib::*;

verus! {

/// `itertools::Itertools::combinations` on a copy of the cards, collected.
///
/// Trusted: the call yields every way to choose `k` of the cards, each as a
/// vector that keeps the cards in their given order, and yields the ways in
/// the lexicographic order of the chosen places. It takes no account of
/// whether two cards are equal.
#[verifier::external_body]
pub(crate) fn card_combinations(cards: &Vec<Card>, k: usize) -> (r: Vec<Vec<Card>>)
    ensures
        r@.len() == combinations(cards@, k as nat).len(),
        forall|i: int| 0 <= i < r@.len() ==> (#[trigger] r@[i])@ == combinations(cards@, k as nat)[i],
{
    itertools::Itertools::combinations(cards.clone().into_iter(), k).collect()
}

/// `itertools::Itertools::sorted` on small integers, collected.
///
/// Trusted: the call yields the same integers, each as often as it was
/// given, in ascending order.
#[verifier::external_body]
pub(crate) fn sorted(items: Vec<u8>) -> (r: Vec<u8>)
    ensures
        r@.to_multiset() == items@.to_multiset(),
        forall|i: int, j: int| 0 <= i <= j < r@.len() ==> r@[i] <= r@[j],
{
    itertools::Itertools::sorted(items.into_iter()).collect()
}

/// The operation "put `x` in front".
pub open spec fn prepend<T>(x: T) -> spec_fn(Seq<T>) -> Seq<T> {
    |c: Seq<T>| seq![x] + c
}

/// All ways to choose `k` items of `s`, each way listing its items in the
/// order they have in `s`.
///
/// The ways come in the lexicographic order of the chosen places: first
/// those that take the first item, ordered by what they take from the rest,
/// then those that leave it out.
pub open spec fn combinations<T>(s: Seq<T>, k: nat) -> Seq<Seq<T>>
    decreases s.len(),
{
    if k == 0 {
        seq![Seq::empty()]
    } else if s.len() < k {
        Seq::empty()
    } else {
        combinations(s.drop_first(), (k - 1) as nat).map_values(prepend(s[0])) + combinations(
            s.drop_first(),
            k,
        )
    }
}

/// The number of ways to choose `k` out of `n`.
pub open spec fn choices(n: nat, k: nat) -> nat
    decreases n,
{
    if k == 0 {
        1
    } else if n < k {
        0
    } else {
        choices((n - 1) as nat, (k - 1) as nat) + choices((n - 1) as nat, k)
    }
}

/// There are as many combinations as there are ways to choose, and each
/// holds `k` items.
pub proof fn lemma_combinations_shape<T>(s: Seq<T>, k: nat)
    ensures
        combinations(s, k).len() == choices(s.len(), k),
        forall|i: int| 0 <= i < combinations(s, k).len() ==> (#[trigger] combinations(s, k)[i]).len() == k,
    decreases s.len(),
{
    if k == 0 {
    } else if s.len() < k {
    } else {
        lemma_combinations_shape(s.drop_first(), (k - 1) as nat);
        lemma_combinations_shape(s.drop_first(), k);
    }
}

/// Choosing all items of a sequence can be done in one way only: the
/// sequence itself.
pub proof fn lemma_combinations_whole<T>(s: Seq<T>)
    ensures
        combinations(s, s.len()) == seq![s],
    decreases s.len(),
{
    if s.len() == 0 {
        assert(s =~= Seq::empty());
    } else {
        let rest = s.drop_first();
        lemma_combinations_whole(rest);
        assert(combinations(rest, s.len()) =~= Seq::<Seq<T>>::empty());
        assert(seq![s[0]] + rest =~= s);
        assert(combinations(s, s.len()) =~= seq![s]);
    }
}

/// A sequence with at least `k` items has a combination of `k`.
pub proof fn lemma_combinations_exist<T>(s: Seq<T>, k: nat)
    requires
        k <= s.len(),
    ensures
        combinations(s, k).len() >= 1,
    decreases s.len(),
{
    if k == 0 {
    } else {
        lemma_combinations_exist(s.drop_first(), (k - 1) as nat);
    }
}

/// Every combination takes its items from the sequence: no item occurs in
/// it more often than in the sequence.
pub proof fn lemma_combination_within<T>(s: Seq<T>, k: nat, i: int)
    requires
        0 <= i < combinations(s, k).len(),
    ensures
        combinations(s, k)[i].to_multiset().subset_of(s.to_multiset()),
    decreases s.len(),
{
    broadcast use {group_multiset_axioms, group_multiset_properties};

    if k == 0 {
        assert(combinations(s, k)[i] =~= Seq::<T>::empty());
        assert(Seq::<T>::empty().to_multiset() =~= Multiset::<T>::empty()) by {
            Seq::<T>::empty().to_multiset_ensures();
        }
    } else if s.len() < k {
    } else {
        let rest = s.drop_first();
        let with_first = combinations(rest, (k - 1) as nat).map_values(prepend(s[0]));
        assert(seq![s[0]] + rest =~= s);
        lemma_multiset_commutative(seq![s[0]], rest);
        if i < with_first.len() {
            let inner = combinations(rest, (k - 1) as nat)[i];
            lemma_combination_within(rest, (k - 1) as nat, i);
            assert(combinations(s, k)[i] == seq![s[0]] + inner);
            lemma_multiset_commutative(seq![s[0]], inner);
        } else {
            let j = i - with_first.len();
            lemma_combination_within(rest, k, j);
            assert(combinations(s, k)[i] == combinations(rest, k)[j]);
        }
    }
}

/// Five items can be chosen out of seven in 21 ways, out of six in 6 ways,
/// and out of five in one way.
pub proof fn lemma_choices_of_five()
    ensures
        choices(5, 5) == 1,
        choices(6, 5) == 6,
        choices(7, 5) == 21,
{
    reveal_with_fuel(choices, 8);
}

} // verus!
