//! The Fisher–Yates shuffle, driven by the seeded generator.

use crate::rng::{draw_index, state_after, xorshift, XorShift64};
use vstd::prelude::*;

verus! {

/// The sequence `s` with the items at `i` and `j` exchanged.
pub open spec fn swap_at<T>(s: Seq<T>, i: int, j: int) -> Seq<T> {
    s.update(i, s[j]).update(j, s[i])
}

/// The steps of the shuffle for the positions `i`, `i - 1`, ..., 1: each draws
/// an index in `0..=i` from the generator and exchanges the two items.
pub open spec fn shuffle_steps<T>(s: Seq<T>, state: u64, i: nat) -> Seq<T>
    decreases i,
{
    if i == 0 {
        s
    } else {
        let next = xorshift(state);
        shuffle_steps(swap_at(s, i as int, draw_index(next, i + 1)), next, (i - 1) as nat)
    }
}

/// How many numbers the shuffle of `len` items draws.
pub open spec fn shuffle_draws(len: nat) -> nat {
    if len == 0 {
        0
    } else {
        (len - 1) as nat
    }
}

/// The shuffle of `s` by a generator in state `state`.
pub open spec fn shuffled<T>(s: Seq<T>, state: u64) -> Seq<T> {
    shuffle_steps(s, state, shuffle_draws(s.len()))
}

/// Exchanging two items keeps the length and the items.
pub proof fn lemma_swap_keeps_items<T>(s: Seq<T>, i: int, j: int)
    requires
        0 <= i < s.len(),
        0 <= j < s.len(),
    ensures
        swap_at(s, i, j).len() == s.len(),
        swap_at(s, i, j).to_multiset() == s.to_multiset(),
{
    if i == j {
        assert(swap_at(s, i, j) =~= s);
    } else {
        let mid = s.update(i, s[j]);
        vstd::seq_lib::to_multiset_update(s, i, s[j]);
        vstd::seq_lib::to_multiset_update(mid, j, s[i]);
        vstd::seq_lib::to_multiset_contains(s, s[i]);
        vstd::seq_lib::to_multiset_contains(s, s[j]);
        assert(s.contains(s[i]));
        assert(s.contains(s[j]));
        assert(s.to_multiset().insert(s[j]).remove(s[i]).insert(s[i]).remove(s[j])
            =~= s.to_multiset());
    }
}

/// The steps of the shuffle rearrange the items: none is lost, none is added.
pub proof fn lemma_shuffle_steps_permute<T>(s: Seq<T>, state: u64, i: nat)
    requires
        i < s.len() || i == 0,
    ensures
        shuffle_steps(s, state, i).len() == s.len(),
        shuffle_steps(s, state, i).to_multiset() == s.to_multiset(),
    decreases i,
{
    if i > 0 {
        let next = xorshift(state);
        let j = draw_index(next, i + 1);
        assert(0 <= j < i + 1) by {
            vstd::arithmetic::div_mod::lemma_mod_bound((next >> 1) as int, (i + 1) as int);
        }
        lemma_swap_keeps_items(s, i as int, j);
        lemma_shuffle_steps_permute(swap_at(s, i as int, j), next, (i - 1) as nat);
    }
}

/// A shuffle is a permutation: the result has the length and the items of the
/// input, each as often as the input has it.
pub proof fn lemma_shuffled_is_permutation<T>(s: Seq<T>, state: u64)
    ensures
        shuffled(s, state).len() == s.len(),
        shuffled(s, state).to_multiset() == s.to_multiset(),
        forall|v: T| shuffled(s, state).contains(v) <==> s.contains(v),
        s.no_duplicates() ==> shuffled(s, state).no_duplicates(),
{
    let r = shuffled(s, state);
    lemma_shuffle_steps_permute(s, state, shuffle_draws(s.len()));
    assert forall|v: T| r.contains(v) <==> s.contains(v) by {
        vstd::seq_lib::to_multiset_contains(r, v);
        vstd::seq_lib::to_multiset_contains(s, v);
    }
    if s.no_duplicates() {
        s.lemma_multiset_has_no_duplicates();
        r.lemma_multiset_has_no_duplicates_conv();
    }
}

/// Shuffles `arr` in place: for `i` from the last position down to 1, draws
/// `j` in `0..=i` and exchanges the items at `i` and `j`.
pub fn fisher_yates_shuffle<T: Copy>(arr: &mut [T], prng: &mut XorShift64)
    ensures
        final(arr)@ == shuffled(old(arr)@, old(prng)@),
        final(prng)@ == state_after(old(prng)@, shuffle_draws(old(arr)@.len())),
{
    let n: usize = arr.len();
    if n < 2 {
        return ;
    }
    let mut i: usize = n - 1;
    while i > 0
        invariant
            i < n,
            arr@.len() == n,
            shuffle_steps(arr@, prng@, i as nat) == shuffled(old(arr)@, old(prng)@),
            state_after(prng@, i as nat) == state_after(
                old(prng)@,
                shuffle_draws(old(arr)@.len()),
            ),
        decreases i,
    {
        let j: usize = prng.next_below(i + 1);
        let a: T = arr[i];
        let b: T = arr[j];
        arr[i] = b;
        arr[j] = a;
        i -= 1;
    }
}

} // verus!
