//! Data-parallel simulated annealing: a batch of chains advanced together and
//! collapsed onto the best of them after each temperature.

use vstd::prelude::*;
use crate::binary32::{order_key, Binary32};

verus! {

/// `i` is where the minimum of `es` first occurs, NaN entries left aside; when
/// every entry is a NaN (or there is none) it is 0.
pub open spec fn first_min(es: Seq<Binary32>, i: int) -> bool {
    if forall|j: int| 0 <= j < es.len() ==> (#[trigger] es[j]).is_nan_spec() {
        i == 0
    } else {
        &&& 0 <= i < es.len()
        &&& !es[i].is_nan_spec()
        &&& forall|j: int|
            0 <= j < es.len() && !(#[trigger] es[j]).is_nan_spec() ==> order_key(es[i].bits)
                <= order_key(es[j].bits)
        &&& forall|j: int|
            0 <= j < i && !(#[trigger] es[j]).is_nan_spec() ==> order_key(es[i].bits) < order_key(
                es[j].bits,
            )
    }
}

/// `r` is the batch made of copies of the elite of `batch`: the chain whose
/// energy in `energies` is the first minimum.
pub open spec fn elite_of<U>(batch: Seq<U>, energies: Seq<Binary32>, r: Seq<U>) -> bool {
    &&& r.len() == batch.len()
    &&& batch.len() > 0 ==> exists|e: int|
        first_min(energies, e) && forall|i: int| 0 <= i < r.len() ==> #[trigger] r[i] == batch[e]
}

/// Elementwise choice: `proposed[i]` where `mask[i]` holds, else `current[i]`.
pub open spec fn chosen<U>(proposed: Seq<U>, mask: Seq<bool>, current: Seq<U>) -> Seq<U> {
    Seq::new(current.len(), |i: int| if mask[i] { proposed[i] } else { current[i] })
}

/// One round of a batch as it was computed: the proposals, their energies and
/// the acceptance mask.
pub struct Round<T> {
    pub proposals: Vec<T>,
    pub energies: Vec<Binary32>,
    pub mask: Vec<bool>,
}

/// `round` was computed by the callbacks from the batch `before` (with its
/// energies) at temperature `t`, and led to `after`.
pub open spec fn round_link<T, E: Fn(&Vec<T>) -> Vec<Binary32>, F: Fn(&Vec<T>) -> Vec<T>, A: Fn(
    &Vec<Binary32>,
    &Vec<Binary32>,
    Binary32,
    Binary32,
) -> Vec<bool>>(
    energy: E,
    neighbour_map: F,
    accept: A,
    k: Binary32,
    t: Binary32,
    before: (Vec<T>, Vec<Binary32>),
    round: Round<T>,
    after: (Vec<T>, Vec<Binary32>),
) -> bool {
    &&& neighbour_map.ensures((&before.0,), round.proposals)
    &&& energy.ensures((&round.proposals,), round.energies)
    &&& accept.ensures((&before.1, &round.energies, k, t), round.mask)
    &&& after.0@ == chosen(round.proposals@, round.mask@, before.0@)
    &&& after.1@ == chosen(round.energies@, round.mask@, before.1@)
}

/// One temperature of the batched run: `n` rounds from `from`, then the
/// collapse of the batch onto its elite, the energies being kept as the last
/// round left them.
pub open spec fn batch_stage<T, E: Fn(&Vec<T>) -> Vec<Binary32>, F: Fn(&Vec<T>) -> Vec<T>, A: Fn(
    &Vec<Binary32>,
    &Vec<Binary32>,
    Binary32,
    Binary32,
) -> Vec<bool>>(
    energy: E,
    neighbour_map: F,
    accept: A,
    k: Binary32,
    t: Binary32,
    n: int,
    from: (Vec<T>, Vec<Binary32>),
    to: (Vec<T>, Vec<Binary32>),
) -> bool {
    exists|states: Seq<(Vec<T>, Vec<Binary32>)>, rounds: Seq<Round<T>>|
        {
            &&& states.len() == rounds.len() + 1
            &&& rounds.len() == n
            &&& states[0] == from
            &&& forall|i: int|
                0 <= i < rounds.len() ==> round_link(
                    energy,
                    neighbour_map,
                    accept,
                    k,
                    t,
                    states[i],
                    #[trigger] rounds[i],
                    states[i + 1],
                )
            &&& to.1 == states.last().1
            &&& elite_of(states.last().0@, to.1@, to.0@)
        }
}

/// Chain `i` takes `proposed[i]` where `mask[i]` holds and keeps `current[i]`
/// elsewhere.
pub fn select<U: Copy>(proposed: &Vec<U>, mask: &Vec<bool>, current: &Vec<U>) -> (r: Vec<U>)
    requires
        proposed.len() == current.len(),
        mask.len() == current.len(),
    ensures
        r.len() == current.len(),
        forall|i: int|
            0 <= i < r.len() ==> #[trigger] r[i] == if mask[i] {
                proposed[i]
            } else {
                current[i]
            },
{
    let mut r: Vec<U> = Vec::with_capacity(current.len());
    let mut i: usize = 0;
    while i < current.len()
        invariant
            proposed.len() == current.len(),
            mask.len() == current.len(),
            i <= current.len(),
            r.len() == i,
            forall|j: int|
                0 <= j < i ==> #[trigger] r[j] == if mask[j] {
                    proposed[j]
                } else {
                    current[j]
                },
        decreases current.len() - i,
    {
        if mask[i] {
            r.push(proposed[i]);
        } else {
            r.push(current[i]);
        }
        i = i + 1;
    }
    r
}

/// The index of the lowest energy, the first one on ties; NaN energies never
/// win (see [`first_min`]).
pub fn argmin(energies: &Vec<Binary32>) -> (i: usize)
    ensures
        first_min(energies@, i as int),
{
    let mut best: usize = 0;
    let mut found = false;
    let mut i: usize = 0;
    while i < energies.len()
        invariant
            i <= energies.len(),
            found ==> {
                &&& best < i
                &&& !energies@[best as int].is_nan_spec()
                &&& forall|j: int|
                    0 <= j < i && !(#[trigger] energies@[j]).is_nan_spec() ==> order_key(
                        energies@[best as int].bits,
                    ) <= order_key(energies@[j].bits)
                &&& forall|j: int|
                    0 <= j < best && !(#[trigger] energies@[j]).is_nan_spec() ==> order_key(
                        energies@[best as int].bits,
                    ) < order_key(energies@[j].bits)
            },
            !found ==> best == 0 && forall|j: int|
                0 <= j < i ==> (#[trigger] energies@[j]).is_nan_spec(),
        decreases energies.len() - i,
    {
        if !energies[i].is_nan() && (!found || energies[i].lt(&energies[best])) {
            best = i;
            found = true;
        }
        i = i + 1;
    }
    best
}

/// `n` copies of `elite`.
pub fn broadcast<U: Copy>(elite: U, n: usize) -> (r: Vec<U>)
    ensures
        r.len() == n,
        forall|i: int| 0 <= i < n ==> #[trigger] r[i] == elite,
{
    let mut r: Vec<U> = Vec::with_capacity(n);
    let mut i: usize = 0;
    while i < n
        invariant
            i <= n,
            r.len() == i,
            forall|j: int| 0 <= j < i ==> #[trigger] r[j] == elite,
        decreases n - i,
    {
        r.push(elite);
        i = i + 1;
    }
    r
}

/// Replaces the batch by as many copies of its elite: the chain of lowest
/// energy, the first one on ties.
pub fn collapse<U: Copy>(batch: &Vec<U>, energies: &Vec<Binary32>) -> (r: Vec<U>)
    requires
        batch.len() == energies.len(),
    ensures
        elite_of(batch@, energies@, r@),
{
    if batch.len() == 0 {
        return Vec::new();
    }
    let e = argmin(energies);
    let r = broadcast(batch[e], batch.len());
    assert(forall|i: int| 0 <= i < r.len() ==> #[trigger] r@[i] == batch@[e as int]);
    r
}

/// The batch callbacks may be called on any batch and keep its width.
pub open spec fn batch_callable<T, E: Fn(&Vec<T>) -> Vec<Binary32>, F: Fn(&Vec<T>) -> Vec<T>, A: Fn(
    &Vec<Binary32>,
    &Vec<Binary32>,
    Binary32,
    Binary32,
) -> Vec<bool>>(energy: E, neighbour_map: F, accept: A) -> bool {
    &&& forall|b: &Vec<T>| energy.requires((b,))
    &&& forall|b: &Vec<T>, r: Vec<Binary32>| energy.ensures((b,), r) ==> r.len() == b.len()
    &&& forall|b: &Vec<T>| neighbour_map.requires((b,))
    &&& forall|b: &Vec<T>, r: Vec<T>| neighbour_map.ensures((b,), r) ==> r.len() == b.len()
    &&& forall|c: &Vec<Binary32>, p: &Vec<Binary32>, k: Binary32, t: Binary32|
        accept.requires((c, p, k, t))
    &&& forall|c: &Vec<Binary32>, p: &Vec<Binary32>, k: Binary32, t: Binary32, r: Vec<bool>|
        accept.ensures((c, p, k, t), r) ==> r.len() == c.len()
}

/// Minimizes `energy` by `batch_size` annealing chains run side by side from
/// `start`.
///
/// For each temperature, `chain_length` times: every chain proposes a
/// neighbour (one call of `neighbour_map` on the whole batch), the proposals
/// are evaluated (one call of `energy`), and chain `i` takes its proposal where
/// `accept` says so for it (the Metropolis test against an independent draw
/// per chain). Then the batch is collapsed onto its elite (see [`collapse`]);
/// the energies are left as they were, not re-evaluated on the elite. Returns
/// the final batch, every chain of which holds the same state.
pub fn minimize_numeric<T: Copy, E, F, A>(
    batch_size: u64,
    chain_length: usize,
    k: Binary32,
    start: T,
    energy: E,
    neighbour_map: F,
    temperatures: Vec<Binary32>,
    accept: A,
) -> (r: Vec<T>) where
    E: Fn(&Vec<T>) -> Vec<Binary32>,
    F: Fn(&Vec<T>) -> Vec<T>,
    A: Fn(&Vec<Binary32>, &Vec<Binary32>, Binary32, Binary32) -> Vec<bool>,

    requires
        k.is_positive_spec(),
        batch_size <= usize::MAX,
        batch_callable(energy, neighbour_map, accept),
    ensures
        r.len() == batch_size,
        forall|i: int| 0 <= i < r.len() ==> #[trigger] r[i] == r[0],
        temperatures.len() == 0 ==> forall|i: int| 0 <= i < r.len() ==> #[trigger] r[i] == start,
        exists|stages: Seq<(Vec<T>, Vec<Binary32>)>|
            {
                &&& stages.len() == temperatures.len() + 1
                &&& stages[0].0@ == Seq::new(batch_size as nat, |i: int| start)
                &&& energy.ensures((&stages[0].0,), stages[0].1)
                &&& forall|s: int|
                    0 <= s < temperatures.len() ==> batch_stage(
                        energy,
                        neighbour_map,
                        accept,
                        k,
                        #[trigger] temperatures@[s],
                        chain_length as int,
                        stages[s],
                        stages[s + 1],
                    )
                &&& r == stages.last().0
            },
{
    let width = batch_size as usize;
    let mut x = broadcast(start, width);
    let mut ex = energy(&x);
    assert(x@ == Seq::new(batch_size as nat, |i: int| start));
    let ghost mut stages: Seq<(Vec<T>, Vec<Binary32>)> = seq![(x, ex)];
    let mut t: usize = 0;
    while t < temperatures.len()
        invariant
            batch_callable(energy, neighbour_map, accept),
            x.len() == width,
            ex.len() == width,
            width == batch_size,
            t <= temperatures.len(),
            forall|i: int| 0 <= i < x.len() ==> #[trigger] x[i] == x[0],
            t == 0 ==> forall|i: int| 0 <= i < x.len() ==> #[trigger] x[i] == start,
            stages.len() == t + 1,
            stages[0].0@ == Seq::new(batch_size as nat, |i: int| start),
            energy.ensures((&stages[0].0,), stages[0].1),
            stages.last() == (x, ex),
            forall|s: int|
                0 <= s < t ==> batch_stage(
                    energy,
                    neighbour_map,
                    accept,
                    k,
                    #[trigger] temperatures@[s],
                    chain_length as int,
                    stages[s],
                    stages[s + 1],
                ),
        decreases temperatures.len() - t,
    {
        let temperature = temperatures[t];
        let ghost from = (x, ex);
        let ghost mut states: Seq<(Vec<T>, Vec<Binary32>)> = seq![from];
        let ghost mut rounds: Seq<Round<T>> = Seq::empty();
        let mut j: usize = 0;
        while j < chain_length
            invariant
                batch_callable(energy, neighbour_map, accept),
                x.len() == width,
                ex.len() == width,
                j <= chain_length,
                states.len() == rounds.len() + 1,
                rounds.len() == j,
                states[0] == from,
                states.last() == (x, ex),
                forall|i: int|
                    0 <= i < rounds.len() ==> round_link(
                        energy,
                        neighbour_map,
                        accept,
                        k,
                        temperature,
                        states[i],
                        #[trigger] rounds[i],
                        states[i + 1],
                    ),
            decreases chain_length - j,
        {
            let n = neighbour_map(&x);
            let en = energy(&n);
            let mask = accept(&ex, &en, k, temperature);
            let ghost before = (x, ex);
            let ghost round = Round { proposals: n, energies: en, mask };
            x = select(&n, &mask, &x);
            ex = select(&en, &mask, &ex);
            proof {
                assert(x@ =~= chosen(n@, mask@, before.0@));
                assert(ex@ =~= chosen(en@, mask@, before.1@));
                let prev_states = states;
                let prev_rounds = rounds;
                states = states.push((x, ex));
                rounds = rounds.push(round);
                assert forall|i: int| 0 <= i < rounds.len() implies round_link(
                    energy,
                    neighbour_map,
                    accept,
                    k,
                    temperature,
                    states[i],
                    #[trigger] rounds[i],
                    states[i + 1],
                ) by {
                    if i < prev_rounds.len() {
                        assert(rounds[i] == prev_rounds[i]);
                        assert(states[i] == prev_states[i]);
                        assert(states[i + 1] == prev_states[i + 1]);
                    }
                }
            }
            j = j + 1;
        }
        let ghost last = x;
        x = collapse(&x, &ex);
        proof {
            assert(batch_stage(
                energy,
                neighbour_map,
                accept,
                k,
                temperature,
                chain_length as int,
                from,
                (x, ex),
            ));
            let prev = stages;
            stages = stages.push((x, ex));
            assert forall|s: int| 0 <= s < t + 1 implies batch_stage(
                energy,
                neighbour_map,
                accept,
                k,
                #[trigger] temperatures@[s],
                chain_length as int,
                stages[s],
                stages[s + 1],
            ) by {
                if s < t {
                    assert(stages[s] == prev[s]);
                    assert(stages[s + 1] == prev[s + 1]);
                }
            }
        }
        t = t + 1;
    }
    x
}

} // verus!
