//! Sequential simulated annealing: one chain, eager and lazy.

use vstd::prelude::*;
use tinyrand::{Probability, Wyrand};
use crate::acceptance::{accepts, classify, verdict_of, Verdict};
use crate::binary32::{nan_bits, Binary32};
use crate::rng::{next_bool, seeded};

verus! {

/// One inner iteration as it happened: the neighbour proposed, its energy,
/// and the outcome of the uphill draw (it matters only when one was made).
pub struct Step<T> {
    pub proposal: T,
    pub energy: Binary32,
    pub draw: bool,
}

/// The (state, energy) pair after one step of the acceptance rule.
pub open spec fn apply_step<T>(before: (T, Binary32), step: Step<T>) -> (T, Binary32) {
    if accepts(before.1, step.energy, step.draw) {
        (step.proposal, step.energy)
    } else {
        before
    }
}

/// `step` was proposed from `before` by the callbacks, and led to `after`.
pub open spec fn link<T, E: Fn(&T) -> Binary32, F: Fn(&T) -> T>(
    energy: E,
    neighbour: F,
    before: (T, Binary32),
    step: Step<T>,
    after: (T, Binary32),
) -> bool {
    &&& neighbour.ensures((&before.0,), step.proposal)
    &&& energy.ensures((&step.proposal,), step.energy)
    &&& after == apply_step(before, step)
}

/// `states` is the sequence of (state, energy) pairs that `steps` went through.
pub open spec fn walk<T, E: Fn(&T) -> Binary32, F: Fn(&T) -> T>(
    energy: E,
    neighbour: F,
    states: Seq<(T, Binary32)>,
    steps: Seq<Step<T>>,
) -> bool {
    &&& states.len() == steps.len() + 1
    &&& forall|i: int|
        0 <= i < steps.len() ==> link(energy, neighbour, states[i], #[trigger] steps[i], states[i + 1])
}

/// The schedule `ts` runs for exactly its first `n` temperatures: none of them
/// is zero, and the next one, if any, is the zero sentinel.
pub open spec fn stops_after(ts: Seq<Binary32>, n: int) -> bool {
    &&& 0 <= n <= ts.len()
    &&& forall|i: int| 0 <= i < n ==> !(#[trigger] ts[i]).is_zero_spec()
    &&& (n == ts.len() || ts[n].is_zero_spec())
}

/// The callbacks may be called on any state.
pub open spec fn callable<T, E: Fn(&T) -> Binary32, F: Fn(&T) -> T, M: Fn(
    Binary32,
    Binary32,
    Binary32,
    Binary32,
) -> Probability>(energy: E, neighbour: F, metropolis: M) -> bool {
    &&& forall|x: &T| energy.requires((x,))
    &&& forall|x: &T| neighbour.requires((x,))
    &&& forall|a: Binary32, b: Binary32, k: Binary32, t: Binary32| metropolis.requires((a, b, k, t))
}

/// The live chain of a sequential run: its state, that state's energy, and
/// the generator that every uphill draw comes from.
pub struct Annealer<T> {
    pub state: T,
    pub energy: Binary32,
    pub rng: Wyrand,
}

impl<T> Annealer<T> {
    pub open spec fn pair(self) -> (T, Binary32) {
        (self.state, self.energy)
    }

    /// A chain at `start`, of energy `start_energy`, drawing from the stream
    /// that `seed` fixes.
    pub fn new(start: T, start_energy: Binary32, seed: u64) -> (r: Annealer<T>)
        ensures
            r.state == start,
            r.energy == start_energy,
    {
        Annealer { state: start, energy: start_energy, rng: seeded(seed) }
    }

    /// Applies the acceptance rule to a proposal of energy `energy`. A NaN
    /// leaves the chain, generator included, as it was; a strict improvement is
    /// taken without a draw; otherwise exactly one draw, with the probability
    /// that `metropolis` gives for (current, proposed, `k`, `temperature`),
    /// decides. Returns whether the proposal was taken.
    pub fn offer<M>(
        &mut self,
        proposal: T,
        energy: Binary32,
        k: Binary32,
        temperature: Binary32,
        metropolis: &M,
    ) -> (accepted: bool) where
        M: Fn(Binary32, Binary32, Binary32, Binary32) -> Probability,

        requires
            metropolis.requires((old(self).energy, energy, k, temperature)),
        ensures
            accepted == accepts(old(self).energy, energy, accepted),
            final(self).pair() == apply_step(
                old(self).pair(),
                Step { proposal, energy, draw: accepted },
            ),
            verdict_of(old(self).energy, energy) != Verdict::Uphill ==> final(self).rng == old(
                self,
            ).rng,
    {
        match classify(&self.energy, &energy) {
            Verdict::Reject => false,
            Verdict::Improve => {
                self.state = proposal;
                self.energy = energy;
                true
            },
            Verdict::Uphill => {
                let p = metropolis(self.energy, energy, k, temperature);
                if next_bool(&mut self.rng, p) {
                    self.state = proposal;
                    self.energy = energy;
                    true
                } else {
                    false
                }
            },
        }
    }

    /// One inner iteration: proposes a neighbour of the current state,
    /// evaluates it and offers it. Returns the step that was taken.
    fn propose<E, F, M>(
        &mut self,
        k: Binary32,
        temperature: Binary32,
        energy: &E,
        neighbour: &F,
        metropolis: &M,
    ) -> (step: Ghost<Step<T>>) where
        E: Fn(&T) -> Binary32,
        F: Fn(&T) -> T,
        M: Fn(Binary32, Binary32, Binary32, Binary32) -> Probability,

        requires
            callable(*energy, *neighbour, *metropolis),
        ensures
            link(*energy, *neighbour, old(self).pair(), step@, final(self).pair()),
    {
        let n = neighbour(&self.state);
        let ghost proposal = n;
        let en = energy(&n);
        let accepted = self.offer(n, en, k, temperature, metropolis);
        Ghost(Step { proposal, energy: en, draw: accepted })
    }

    /// Runs `chain_length` inner iterations at `temperature`.
    fn stage<E, F, M>(
        &mut self,
        chain_length: usize,
        k: Binary32,
        temperature: Binary32,
        energy: &E,
        neighbour: &F,
        metropolis: &M,
        walked: Ghost<(Seq<(T, Binary32)>, Seq<Step<T>>)>,
    ) -> (extended: Ghost<(Seq<(T, Binary32)>, Seq<Step<T>>)>) where
        E: Fn(&T) -> Binary32,
        F: Fn(&T) -> T,
        M: Fn(Binary32, Binary32, Binary32, Binary32) -> Probability,

        requires
            callable(*energy, *neighbour, *metropolis),
            walk(*energy, *neighbour, walked@.0, walked@.1),
            walked@.0.last() == old(self).pair(),
        ensures
            walk(*energy, *neighbour, extended@.0, extended@.1),
            extended@.0.last() == final(self).pair(),
            extended@.1.len() == walked@.1.len() + chain_length,
            extended@.0[0] == walked@.0[0],
    {
        let ghost mut states = walked@.0;
        let ghost mut steps = walked@.1;
        let mut j: usize = 0;
        while j < chain_length
            invariant
                callable(*energy, *neighbour, *metropolis),
                walk(*energy, *neighbour, states, steps),
                states.last() == self.pair(),
                steps.len() == walked@.1.len() + j,
                states[0] == walked@.0[0],
                j <= chain_length,
            decreases chain_length - j,
        {
            let step = self.propose(k, temperature, energy, neighbour, metropolis);
            proof {
                let prev_states = states;
                let prev_steps = steps;
                states = states.push(self.pair());
                steps = steps.push(step@);
                assert forall|i: int| 0 <= i < steps.len() implies link(
                    *energy,
                    *neighbour,
                    states[i],
                    #[trigger] steps[i],
                    states[i + 1],
                ) by {
                    if i < prev_steps.len() {
                        assert(steps[i] == prev_steps[i]);
                        assert(states[i] == prev_states[i]);
                        assert(states[i + 1] == prev_states[i + 1]);
                    }
                }
            }
            j = j + 1;
        }
        Ghost((states, steps))
    }
}

impl<T> Annealer<T> {
    /// Runs one temperature stage: `chain_length` inner iterations at
    /// `temperature`.
    pub fn run_stage<E, F, M>(
        &mut self,
        chain_length: usize,
        k: Binary32,
        temperature: Binary32,
        energy: &E,
        neighbour: &F,
        metropolis: &M,
    ) where
        E: Fn(&T) -> Binary32,
        F: Fn(&T) -> T,
        M: Fn(Binary32, Binary32, Binary32, Binary32) -> Probability,

        requires
            callable(*energy, *neighbour, *metropolis),
        ensures
            stage_walk(*energy, *neighbour, old(self).pair(), final(self).pair(), chain_length as int),
    {
        let ghost from = self.pair();
        let walked = self.stage(
            chain_length,
            k,
            temperature,
            energy,
            neighbour,
            metropolis,
            Ghost((seq![from], Seq::empty())),
        );
        assert(walked@.0[0] == from);
    }
}

/// The callback gives one result per argument.
pub open spec fn functional<A, B, G: Fn(&A) -> B>(g: G) -> bool {
    forall|a: &A, b1: B, b2: B| g.ensures((a,), b1) && g.ensures((a,), b2) ==> b1 == b2
}

/// A run is determined by its start, its callbacks and the outcomes of its
/// draws: two walks from the same pair, with deterministic callbacks and the
/// same draw outcomes, pass through the same states and proposals.
pub proof fn lemma_walk_determined<T, E: Fn(&T) -> Binary32, F: Fn(&T) -> T>(
    energy: E,
    neighbour: F,
    states1: Seq<(T, Binary32)>,
    steps1: Seq<Step<T>>,
    states2: Seq<(T, Binary32)>,
    steps2: Seq<Step<T>>,
)
    requires
        functional(energy),
        functional(neighbour),
        walk(energy, neighbour, states1, steps1),
        walk(energy, neighbour, states2, steps2),
        states1[0] == states2[0],
        steps1.len() == steps2.len(),
        forall|i: int| 0 <= i < steps1.len() ==> (#[trigger] steps1[i]).draw == steps2[i].draw,
    ensures
        states1 == states2,
        steps1 == steps2,
    decreases steps1.len(),
{
    if steps1.len() > 0 {
        let n = steps1.len() - 1;
        let s1 = states1.drop_last();
        let s2 = states2.drop_last();
        let p1 = steps1.drop_last();
        let p2 = steps2.drop_last();
        assert forall|i: int| 0 <= i < p1.len() implies link(
            energy,
            neighbour,
            s1[i],
            #[trigger] p1[i],
            s1[i + 1],
        ) by {
            assert(link(energy, neighbour, states1[i], steps1[i], states1[i + 1]));
        }
        assert forall|i: int| 0 <= i < p2.len() implies link(
            energy,
            neighbour,
            s2[i],
            #[trigger] p2[i],
            s2[i + 1],
        ) by {
            assert(link(energy, neighbour, states2[i], steps2[i], states2[i + 1]));
        }
        assert forall|i: int| 0 <= i < p1.len() implies (#[trigger] p1[i]).draw == p2[i].draw by {
            assert(steps1[i].draw == steps2[i].draw);
        }
        lemma_walk_determined(energy, neighbour, s1, p1, s2, p2);
        assert(s1 == s2);
        assert(s1[n] == states1[n]);
        assert(s2[n] == states2[n]);
        assert(states1[n] == states2[n]);
        assert(link(energy, neighbour, states1[n], steps1[n], states1[n + 1]));
        assert(link(energy, neighbour, states2[n], steps2[n], states2[n + 1]));
        assert(steps1[n].proposal == steps2[n].proposal);
        assert(steps1[n].energy == steps2[n].energy);
        assert(steps1[n] == steps2[n]);
        assert(states1[n + 1] == states2[n + 1]);
        assert forall|i: int| 0 <= i < states1.len() implies states1[i] == states2[i] by {
            if i < n + 1 {
                assert(s1[i] == states1[i]);
                assert(s2[i] == states2[i]);
            }
        }
        assert forall|i: int| 0 <= i < steps1.len() implies steps1[i] == steps2[i] by {
            if i < n {
                assert(p1[i] == steps1[i]);
                assert(p2[i] == steps2[i]);
            }
        }
        assert(states1 =~= states2);
        assert(steps1 =~= steps2);
    } else {
        assert(states1 =~= states2);
        assert(steps1 =~= steps2);
    }
}

/// Under a constant-zero energy every proposal ties the current energy, so
/// none is rejected as a NaN nor taken as an improvement: each goes to the
/// draw, the energy stays zero all along, and a neighbour map that returns
/// its argument leaves the state where it started.
pub proof fn lemma_constant_zero_energy<T, E: Fn(&T) -> Binary32, F: Fn(&T) -> T>(
    energy: E,
    neighbour: F,
    states: Seq<(T, Binary32)>,
    steps: Seq<Step<T>>,
)
    requires
        forall|x: &T, e: Binary32| energy.ensures((x,), e) ==> e.bits == 0,
        walk(energy, neighbour, states, steps),
        states[0].1.bits == 0,
    ensures
        forall|i: int|
            0 <= i < steps.len() ==> verdict_of(states[i].1, (#[trigger] steps[i]).energy)
                == Verdict::Uphill,
        forall|i: int| 0 <= i < states.len() ==> (#[trigger] states[i]).1.bits == 0,
        (forall|x: &T, y: T| neighbour.ensures((x,), y) ==> y == *x) ==> forall|i: int|
            0 <= i < states.len() ==> (#[trigger] states[i]).0 == states[0].0,
    decreases steps.len(),
{
    if steps.len() > 0 {
        let s = states.drop_last();
        let p = steps.drop_last();
        assert forall|i: int| 0 <= i < p.len() implies link(
            energy,
            neighbour,
            s[i],
            #[trigger] p[i],
            s[i + 1],
        ) by {
            assert(link(energy, neighbour, states[i], steps[i], states[i + 1]));
        }
        lemma_constant_zero_energy(energy, neighbour, s, p);
        let n = steps.len() - 1;
        assert(link(energy, neighbour, states[n], steps[n], states[n + 1]));
        assert(s[n] == states[n]);
        assert(states[n].1.bits == 0);
        assert(steps[n].energy.bits == 0);
        assert(verdict_of(states[n].1, steps[n].energy) == Verdict::Uphill) by {
            assert(!nan_bits(0u32)) by (bit_vector);
        }
        assert forall|i: int| 0 <= i < steps.len() implies verdict_of(
            states[i].1,
            (#[trigger] steps[i]).energy,
        ) == Verdict::Uphill by {
            if i < n {
                assert(s[i] == states[i]);
                assert(p[i] == steps[i]);
            }
        }
        assert forall|i: int| 0 <= i < states.len() implies (#[trigger] states[i]).1.bits == 0 by {
            if i < states.len() - 1 {
                assert(s[i] == states[i]);
            }
        }
        if forall|x: &T, y: T| neighbour.ensures((x,), y) ==> y == *x {
            assert forall|i: int| 0 <= i < states.len() implies (#[trigger] states[i]).0
                == states[0].0 by {
                if i < states.len() - 1 {
                    assert(s[i] == states[i]);
                }
            }
        }
    }
}

/// Minimizes `energy` by sequential simulated annealing from `start`.
///
/// For each temperature of `temperatures`, in order, until the first zero
/// (which ends the run without being used), `chain_length` inner iterations
/// propose `neighbour` of the current state and apply the acceptance rule;
/// uphill draws come from one generator seeded with `random_seed`, with the
/// probability that `metropolis` computes. Returns the final state.
pub fn minimize<T, E, F, M>(
    chain_length: usize,
    k: Binary32,
    start: T,
    energy: E,
    neighbour: F,
    temperatures: Vec<Binary32>,
    random_seed: u64,
    metropolis: M,
) -> (r: T) where
    E: Fn(&T) -> Binary32,
    F: Fn(&T) -> T,
    M: Fn(Binary32, Binary32, Binary32, Binary32) -> Probability,

    requires
        k.is_positive_spec(),
        callable(energy, neighbour, metropolis),
    ensures
        exists|e0: Binary32, states: Seq<(T, Binary32)>, steps: Seq<Step<T>>, n: int|
            {
                &&& energy.ensures((&start,), e0)
                &&& stops_after(temperatures@, n)
                &&& walk(energy, neighbour, states, steps)
                &&& states[0] == (start, e0)
                &&& steps.len() == chain_length * n
                &&& r == states.last().0
            },
{
    let ghost start_state = start;
    let e0 = energy(&start);
    let mut chain = Annealer::new(start, e0, random_seed);
    let ghost mut states: Seq<(T, Binary32)> = seq![(start_state, e0)];
    let ghost mut steps: Seq<Step<T>> = Seq::empty();
    let mut t: usize = 0;
    while t < temperatures.len() && !temperatures[t].is_zero()
        invariant
            callable(energy, neighbour, metropolis),
            walk(energy, neighbour, states, steps),
            states.last() == chain.pair(),
            states[0] == (start_state, e0),
            steps.len() == chain_length * t,
            t <= temperatures.len(),
            forall|i: int| 0 <= i < t ==> !(#[trigger] temperatures@[i]).is_zero_spec(),
        decreases temperatures.len() - t,
    {
        let walked = chain.stage(
            chain_length,
            k,
            temperatures[t],
            &energy,
            &neighbour,
            &metropolis,
            Ghost((states, steps)),
        );
        proof {
            states = walked@.0;
            steps = walked@.1;
            assert(chain_length * t + chain_length == chain_length * (t + 1)) by (nonlinear_arith);
        }
        t = t + 1;
    }
    assert(stops_after(temperatures@, t as int));
    chain.state
}

/// From `from`, `n` inner iterations of the callbacks and the acceptance rule
/// can end at `to`.
pub open spec fn stage_walk<T, E: Fn(&T) -> Binary32, F: Fn(&T) -> T>(
    energy: E,
    neighbour: F,
    from: (T, Binary32),
    to: (T, Binary32),
    n: int,
) -> bool {
    exists|states: Seq<(T, Binary32)>, steps: Seq<Step<T>>|
        {
            &&& walk(energy, neighbour, states, steps)
            &&& states[0] == from
            &&& states.last() == to
            &&& steps.len() == n
        }
}

/// A sequential run that hands out its state at the end of each temperature
/// stage, one stage per call of [`LazyAnnealer::next`].
pub struct LazyAnnealer<T, E, F, M> {
    chain: Annealer<T>,
    chain_length: usize,
    k: Binary32,
    energy: E,
    neighbour: F,
    metropolis: M,
    temperatures: Vec<Binary32>,
    position: usize,
    finished: bool,
}

impl<T, E, F, M> LazyAnnealer<T, E, F, M> where
    E: Fn(&T) -> Binary32,
    F: Fn(&T) -> T,
    M: Fn(Binary32, Binary32, Binary32, Binary32) -> Probability,
 {
    /// The current state and its energy.
    pub closed spec fn current(self) -> (T, Binary32) {
        self.chain.pair()
    }

    /// The whole temperature schedule.
    pub closed spec fn schedule(self) -> Seq<Binary32> {
        self.temperatures@
    }

    /// How many temperatures have been used.
    pub closed spec fn position(self) -> int {
        self.position as int
    }

    /// Whether the run has ended (schedule used up, or zero sentinel met).
    pub closed spec fn is_finished(self) -> bool {
        self.finished
    }

    pub closed spec fn chain_length(self) -> nat {
        self.chain_length as nat
    }

    pub closed spec fn energy_fn(self) -> E {
        self.energy
    }

    pub closed spec fn neighbour_fn(self) -> F {
        self.neighbour
    }

    pub closed spec fn wf(self) -> bool {
        &&& self.k.is_positive_spec()
        &&& callable(self.energy, self.neighbour, self.metropolis)
        &&& self.position <= self.temperatures.len()
        &&& forall|i: int| 0 <= i < self.position ==> !(#[trigger] self.temperatures@[i]).is_zero_spec()
    }

    /// The next stage's end state: `None` once the schedule is used up or its
    /// next temperature is zero, and from then on.
    pub fn next(&mut self) -> (r: Option<T>) where T: Clone
        requires
            old(self).wf(),
        ensures
            final(self).wf(),
            final(self).schedule() == old(self).schedule(),
            final(self).chain_length() == old(self).chain_length(),
            final(self).energy_fn() == old(self).energy_fn(),
            final(self).neighbour_fn() == old(self).neighbour_fn(),
            old(self).is_finished() || old(self).position() == old(self).schedule().len()
                || old(self).schedule()[old(self).position()].is_zero_spec() ==> {
                &&& r is None
                &&& final(self).is_finished()
                &&& final(self).current() == old(self).current()
                &&& final(self).position() == old(self).position()
            },
            !(old(self).is_finished() || old(self).position() == old(self).schedule().len()
                || old(self).schedule()[old(self).position()].is_zero_spec()) ==> {
                &&& r matches Some(y) && cloned(final(self).current().0, y)
                &&& !final(self).is_finished()
                &&& final(self).position() == old(self).position() + 1
                &&& stage_walk(
                    old(self).energy_fn(),
                    old(self).neighbour_fn(),
                    old(self).current(),
                    final(self).current(),
                    old(self).chain_length() as int,
                )
            },
    {
        if self.finished || self.position >= self.temperatures.len()
            || self.temperatures[self.position].is_zero() {
            self.finished = true;
            return None;
        }
        let ghost from = self.chain.pair();
        let walked = self.chain.stage(
            self.chain_length,
            self.k,
            self.temperatures[self.position],
            &self.energy,
            &self.neighbour,
            &self.metropolis,
            Ghost((seq![from], Seq::empty())),
        );
        assert(walked@.0[0] == from);
        self.position = self.position + 1;
        Some(self.chain.state.clone())
    }
}

/// Starts a sequential run that yields the state reached at the end of each
/// temperature stage (see [`minimize`]); nothing is computed beyond the start
/// energy before the first [`LazyAnnealer::next`].
pub fn minimize_lazy<T, E, F, M>(
    chain_length: usize,
    k: Binary32,
    start: T,
    energy: E,
    neighbour: F,
    temperatures: Vec<Binary32>,
    random_seed: u64,
    metropolis: M,
) -> (r: LazyAnnealer<T, E, F, M>) where
    E: Fn(&T) -> Binary32,
    F: Fn(&T) -> T,
    M: Fn(Binary32, Binary32, Binary32, Binary32) -> Probability,

    requires
        k.is_positive_spec(),
        callable(energy, neighbour, metropolis),
    ensures
        r.wf(),
        r.current().0 == start,
        energy.ensures((&start,), r.current().1),
        r.schedule() == temperatures@,
        r.position() == 0,
        !r.is_finished(),
        r.chain_length() == chain_length,
        r.energy_fn() == energy,
        r.neighbour_fn() == neighbour,
{
    let e0 = energy(&start);
    LazyAnnealer {
        chain: Annealer::new(start, e0, random_seed),
        chain_length,
        k,
        energy,
        neighbour,
        metropolis,
        temperatures,
        position: 0,
        finished: false,
    }
}

} // verus!
