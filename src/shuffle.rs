//! Seeded Fisher–Yates shuffle of the submitted names. The draws come from
//! a fixed linear congruential generator, so a seed always yields the same
//! order; reducing each draw modulo the remaining length leaves a bias too
//! small to matter for a game.

use vstd::prelude::*;
use vstd::multiset::group_multiset_axioms;
use vstd::seq_lib::{to_multiset_contains, to_multiset_update};
use crate::wire::texts;

verus! {

/// Relies on `rand::random::<u32>`: any value at all.
#[verifier::external_body]
pub(crate) fn random_seed() -> u32 {
    rand::random::<u32>()
}

/// The sequence with positions `i` and `j` exchanged.
pub open spec fn swapped<A>(s: Seq<A>, i: int, j: int) -> Seq<A> {
    s.update(i, s[j]).update(j, s[i])
}

/// Fisher–Yates with given draws: for each `i` in turn, position `i` swaps
/// with position `draws[i]`.
pub open spec fn fisher_yates<A>(s: Seq<A>, draws: Seq<usize>) -> Seq<A>
    decreases draws.len(),
{
    if draws.len() == 0 {
        s
    } else {
        swapped(fisher_yates(s, draws.drop_last()), draws.len() - 1, draws.last() as int)
    }
}

/// Draws that fit a shuffle of `n` items: at most one per item, and draw `i`
/// lies between `i` and the last position.
pub open spec fn draws_fit(draws: Seq<usize>, n: nat) -> bool {
    &&& draws.len() <= n
    &&& forall|i: int| 0 <= i < draws.len() ==> i <= #[trigger] draws[i] < n
}

/// A Fisher–Yates shuffle keeps the length and rearranges the same elements.
pub proof fn lemma_fisher_yates_permutes<A>(s: Seq<A>, draws: Seq<usize>)
    requires
        draws_fit(draws, s.len()),
    ensures
        fisher_yates(s, draws).len() == s.len(),
        fisher_yates(s, draws).to_multiset() == s.to_multiset(),
    decreases draws.len(),
{
    broadcast use group_multiset_axioms;

    if draws.len() > 0 {
        let d = draws.drop_last();
        assert(draws_fit(d, s.len())) by {
            assert forall|i: int| 0 <= i < d.len() implies i <= #[trigger] d[i] < s.len() by {
                assert(d[i] == draws[i]);
            }
        }
        lemma_fisher_yates_permutes(s, d);
        let t = fisher_yates(s, d);
        let i = draws.len() - 1;
        let j = draws.last() as int;
        assert(i <= draws[i] < s.len());
        let a = t[i];
        let b = t[j];
        let middle = t.update(i, b);
        to_multiset_update(t, i, b);
        to_multiset_update(middle, j, a);
        to_multiset_contains(t, a);
        let m = t.to_multiset();
        assert(middle[j] == b);
        assert(m.count(a) > 0);
        assert(m.insert(b).remove(a).insert(a) =~= m.insert(b));
        assert(m.insert(b).remove(b) =~= m);
    }
}

/// Multiplier of the draw generator (Knuth's MMIX linear congruential generator).
pub const DRAW_MUL: u64 = 6364136223846793005;

/// Increment of the draw generator.
pub const DRAW_INC: u64 = 1442695040888963407;

/// One step of the draw generator, modulo 2^64.
#[verifier::opaque]
pub open spec fn next_state(s: u64) -> u64 {
    s.wrapping_mul(DRAW_MUL).wrapping_add(DRAW_INC)
}

/// The generator's state after `k` steps from the seed.
pub open spec fn state_after(seed: u64, k: nat) -> u64
    decreases k,
{
    if k == 0 {
        seed
    } else {
        next_state(state_after(seed, (k - 1) as nat))
    }
}

/// Draw `i` of a shuffle of `n` items: the top 31 bits of the state after
/// `i + 1` steps, reduced to a position from `i` to the end.
pub open spec fn draw_at(seed: u64, n: nat, i: nat) -> usize {
    (i + (state_after(seed, i + 1) >> 33u64) % ((n - i) as u64)) as usize
}

/// The draws of a shuffle of `n` items seeded with `seed`: one for each
/// position but the last. The same seed and count always give the same draws.
pub open spec fn draws_of(seed: u64, n: nat) -> Seq<usize> {
    Seq::new(
        if n < 2 {
            0
        } else {
            (n - 1) as nat
        },
        |i: int| draw_at(seed, n, i as nat),
    )
}

proof fn lemma_reduced_draw(x: u64, m: u64)
    requires
        m > 0,
    ensures
        x % m < m,
{
}

/// Seeded draws always fit the shuffle they are drawn for.
pub proof fn lemma_draws_of_fit(seed: u64, n: nat)
    requires
        n <= usize::MAX,
    ensures
        draws_fit(draws_of(seed, n), n),
{
    let d = draws_of(seed, n);
    assert forall|i: int| 0 <= i < d.len() implies i <= #[trigger] d[i] < n by {
        assert(0 < n - i <= u64::MAX);
        lemma_reduced_draw(state_after(seed, (i + 1) as nat) >> 33u64, (n - i) as u64);
    }
}

/// The draws of a shuffle of `n` items seeded with `seed`.
pub fn seeded_draws(seed: u64, n: usize) -> (r: Vec<usize>)
    ensures
        r@ == draws_of(seed, n as nat),
        draws_fit(r@, n as nat),
{
    proof {
        lemma_draws_of_fit(seed, n as nat);
    }
    let mut r: Vec<usize> = Vec::new();
    if n < 2 {
        assert(r@ =~= draws_of(seed, n as nat));
        return r;
    }
    let mut state: u64 = seed;
    let mut i: usize = 0;
    while i + 1 < n
        invariant
            n >= 2,
            i + 1 <= n,
            state == state_after(seed, i as nat),
            r@ =~= draws_of(seed, n as nat).take(i as int),
        decreases n - i,
    {
        state = state.wrapping_mul(DRAW_MUL).wrapping_add(DRAW_INC);
        proof {
            reveal(next_state);
        }
        let span = (n - i) as u64;
        let j = i + ((state >> 33u64) % span) as usize;
        assert(j == draw_at(seed, n as nat, i as nat));
        r.push(j);
        i = i + 1;
    }
    assert(r@ =~= draws_of(seed, n as nat));
    r
}

/// Shuffles `items` in place with the given draws, in Fisher–Yates order.
/// The texts stay the same ones.
pub fn shuffle_with(items: &mut Vec<String>, draws: &Vec<usize>)
    requires
        draws_fit(draws@, old(items)@.len()),
    ensures
        final(items)@.len() == old(items)@.len(),
        texts(final(items)@) == fisher_yates(texts(old(items)@), draws@),
        texts(final(items)@).to_multiset() == texts(old(items)@).to_multiset(),
{
    broadcast use group_multiset_axioms, to_multiset_update;

    let ghost orig = texts(items@);
    let ghost start = orig.to_multiset();
    let n = items.len();
    let mut i: usize = 0;
    assert(draws@.take(0) =~= seq![]);
    while i < draws.len()
        invariant
            n == items@.len(),
            draws_fit(draws@, n as nat),
            i <= draws@.len(),
            texts(items@) == fisher_yates(orig, draws@.take(i as int)),
            texts(items@).to_multiset() == start,
        decreases draws@.len() - i,
    {
        let j = draws[i];
        assert(i <= draws@[i as int] < n);
        let a = items[i].clone();
        let b = items[j].clone();
        let ghost before = texts(items@);
        items[i] = b;
        assert(texts(items@) =~= before.update(i as int, b@));
        let ghost middle = texts(items@);
        items[j] = a;
        assert(texts(items@) =~= middle.update(j as int, a@));
        assert(texts(items@) =~= swapped(before, i as int, j as int));
        assert(draws@.take(i + 1).drop_last() =~= draws@.take(i as int));
        assert(texts(items@) == fisher_yates(orig, draws@.take(i + 1)));
        assert(before.contains(a@)) by {
            assert(before[i as int] == a@);
        }
        assert(before.contains(b@)) by {
            assert(before[j as int] == b@);
        }
        assert(middle[j as int] == b@);
        proof {
            to_multiset_update(before, i as int, b@);
            to_multiset_update(middle, j as int, a@);
            to_multiset_contains(before, a@);
        }
        assert(middle.to_multiset() == start.insert(b@).remove(a@));
        assert(texts(items@).to_multiset() == start.insert(b@).remove(a@).insert(a@).remove(b@));
        assert(start.count(a@) > 0);
        assert(start.insert(b@).remove(a@).insert(a@) =~= start.insert(b@));
        assert(start.insert(b@).remove(b@) =~= start);
        i = i + 1;
    }
    assert(draws@.take(i as int) =~= draws@);
}

} // verus!
