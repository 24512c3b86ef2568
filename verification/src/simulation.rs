//! The order in which the particles of a system act on each other.
//!
//! In each time step every two particles interact once. What they do to
//! each other is the caller's arithmetic: the force between them is added
//! to the first of the pair and, with the opposite sign, to the second.

use vstd::prelude::*;

verus! {

/// The pairs whose first particle is `i` and whose second is one of the
/// particles after `i` and before `j`.
pub open spec fn pairs_with(i: int, j: int) -> Seq<(usize, usize)>
    decreases j - i,
{
    if j <= i + 1 {
        Seq::empty()
    } else {
        pairs_with(i, j - 1).push((i as usize, (j - 1) as usize))
    }
}

/// The pairs among `n` particles whose first particle comes before `i`.
pub open spec fn pairs_before(i: int, n: int) -> Seq<(usize, usize)>
    decreases i,
{
    if i <= 0 {
        Seq::empty()
    } else {
        pairs_before(i - 1, n) + pairs_with(i - 1, n)
    }
}

/// All pairs of two different particles out of `n`, the smaller index first
/// in each pair, ordered by the first particle and then by the second.
pub open spec fn all_pairs(n: int) -> Seq<(usize, usize)> {
    pairs_before(n, n)
}

/// The pairs with first particle `i` are the particles after it, in order.
pub proof fn lemma_pairs_with(i: int, j: int)
    requires
        0 <= i,
        i < j,
        j <= usize::MAX,
    ensures
        pairs_with(i, j).len() == j - i - 1,
        forall|k: int|
            0 <= k < j - i - 1 ==> #[trigger] pairs_with(i, j)[k] == (
                i as usize,
                (i + 1 + k) as usize,
            ),
    decreases j - i,
{
    if j > i + 1 {
        lemma_pairs_with(i, j - 1);
    }
}

/// Where a pair stands among the pairs whose first particle comes before
/// `i`, and that only pairs of such particles are among them.
pub proof fn lemma_pairs_before(i: int, n: int)
    requires
        0 <= i <= n <= usize::MAX,
    ensures
        forall|k: int|
            0 <= k < pairs_before(i, n).len() ==> (#[trigger] pairs_before(i, n)[k]).0
                < pairs_before(i, n)[k].1 && pairs_before(i, n)[k].1 < n && pairs_before(
                i,
                n,
            )[k].0 < i,
        forall|a: usize, b: usize|
            a < i && a < b < n ==> #[trigger] pairs_before(i, n).contains((a, b)),
        forall|k: int, l: int|
            0 <= k < l < pairs_before(i, n).len() ==> pairs_before(i, n)[k] != pairs_before(
                i,
                n,
            )[l],
    decreases i,
{
    if i > 0 {
        lemma_pairs_before(i - 1, n);
        lemma_pairs_with(i - 1, n);
        let head = pairs_before(i - 1, n);
        let tail = pairs_with(i - 1, n);
        let all = head + tail;
        assert forall|a: usize, b: usize| a < i && a < b < n implies #[trigger] all.contains(
            (a, b),
        ) by {
            if a < i - 1 {
                assert(head.contains((a, b)));
                let k = choose|k: int| 0 <= k < head.len() && head[k] == (a, b);
                assert(all[k] == head[k]);
            } else {
                let k = b - i;
                assert(tail[k] == (a, b));
                assert(all[head.len() + k] == tail[k]);
            }
        }
        assert forall|k: int, l: int| 0 <= k < l < all.len() implies all[k] != all[l] by {
            if l < head.len() {
                assert(all[k] == head[k] && all[l] == head[l]);
            } else if k < head.len() {
                assert(all[k] == head[k]);
                assert(all[l] == tail[l - head.len()]);
            } else {
                assert(all[k] == tail[k - head.len()]);
                assert(all[l] == tail[l - head.len()]);
            }
        }
        assert forall|k: int| 0 <= k < all.len() implies (#[trigger] all[k]).0 < all[k].1
            && all[k].1 < n && all[k].0 < i by {
            if k < head.len() {
                assert(all[k] == head[k]);
            } else {
                assert(all[k] == tail[k - head.len()]);
            }
        }
    }
}

/// Every two different particles interact exactly once in a step: each pair
/// with the smaller index first is among the pairs, each of the pairs is
/// such a pair, and none occurs twice.
pub proof fn lemma_all_pairs(n: int)
    requires
        0 <= n <= usize::MAX,
    ensures
        forall|a: usize, b: usize| a < b < n ==> #[trigger] all_pairs(n).contains((a, b)),
        forall|k: int|
            0 <= k < all_pairs(n).len() ==> (#[trigger] all_pairs(n)[k]).0 < all_pairs(n)[k].1
                && all_pairs(n)[k].1 < n,
        all_pairs(n).no_duplicates(),
{
    lemma_pairs_before(n, n);
}

/// The pairs of particles that interact in one step, in the order in which
/// they do. A system of fewer than two particles has none.
pub fn interaction_pairs(n: usize) -> (pairs: Vec<(usize, usize)>)
    ensures
        pairs@ == all_pairs(n as int),
{
    let mut pairs: Vec<(usize, usize)> = Vec::new();
    let mut i: usize = 0;
    while i < n
        invariant
            i <= n,
            pairs@ == pairs_before(i as int, n as int),
        decreases n - i,
    {
        let ghost head = pairs@;
        let mut j: usize = i + 1;
        while j < n
            invariant
                i < n,
                i < j <= n,
                pairs@ == head + pairs_with(i as int, j as int),
            decreases n - j,
        {
            pairs.push((i, j));
            j += 1;
            assert(pairs@ =~= head + pairs_with(i as int, j as int));
        }
        i += 1;
    }
    pairs
}

/// Adds the force that the second particle of a pair exerts on the first to
/// the total of the first, and the opposite force to the total of the
/// second: what one particle of a pair gets, the other gets with the sign
/// turned. `plus` adds two forces and `opposite` turns the sign of one.
pub fn apply_pair<T: Copy, P: Fn(T, T) -> T, N: Fn(T) -> T>(
    totals: &mut Vec<T>,
    pair: (usize, usize),
    force: T,
    plus: P,
    opposite: N,
)
    requires
        pair.0 < old(totals)@.len(),
        pair.1 < old(totals)@.len(),
        pair.0 != pair.1,
        forall|a: T, b: T| plus.requires((a, b)),
        forall|a: T| opposite.requires((a,)),
    ensures
        final(totals)@.len() == old(totals)@.len(),
        plus.ensures((old(totals)@[pair.0 as int], force), final(totals)@[pair.0 as int]),
        exists|back: T|
            opposite.ensures((force,), back) && plus.ensures(
                (old(totals)@[pair.1 as int], back),
                final(totals)@[pair.1 as int],
            ),
        forall|k: int|
            0 <= k < old(totals)@.len() && k != pair.0 && k != pair.1 ==> final(totals)@[k] == old(
                totals,
            )@[k],
{
    let first = plus(totals[pair.0], force);
    let back = opposite(force);
    let second = plus(totals[pair.1], back);
    totals[pair.0] = first;
    totals[pair.1] = second;
}

} // verus!
