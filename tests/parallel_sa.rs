use safire::binary32::Binary32;
use safire::parsa::{argmin, broadcast, collapse, minimize_numeric, select};
use std::cell::RefCell;
use tinyrand::{Rand, Seeded, StdRand};

const TEST_SEED: u64 = 1737207124100;

fn b(x: f32) -> Binary32 {
    Binary32::from_bits(x.to_bits())
}

fn f(x: Binary32) -> f32 {
    f32::from_bits(x.bits)
}

fn exponential_schedule(start: f32, alpha: f32, steps: usize) -> Vec<Binary32> {
    let mut x = start;
    let mut out = Vec::new();
    for _ in 0..steps {
        out.push(b(x));
        x *= alpha;
    }
    out
}

fn uniform(rng: &RefCell<StdRand>) -> f32 {
    (rng.borrow_mut().next_u64() >> 40) as f32 / (1u64 << 24) as f32
}

fn gaussian(rng: &RefCell<StdRand>) -> f32 {
    let u1 = 1.0 - uniform(rng);
    let u2 = uniform(rng);
    (-2.0 * u1.ln()).sqrt() * (2.0 * std::f32::consts::PI * u2).cos()
}

fn perturb_batch<const N: usize>(rng: &RefCell<StdRand>, xs: &[[f32; N]], scale: f32) -> Vec<[f32; N]> {
    xs.iter()
        .map(|x| {
            let mut y = *x;
            for v in y.iter_mut() {
                *v += scale * gaussian(rng);
            }
            y
        })
        .collect()
}

fn metropolis_mask(
    rng: &RefCell<StdRand>,
    current: &[Binary32],
    proposed: &[Binary32],
    k: Binary32,
    t: Binary32,
) -> Vec<bool> {
    current
        .iter()
        .zip(proposed)
        .map(|(c, p)| ((f(*c) - f(*p)) / (f(k) * f(t))).exp() > uniform(rng))
        .collect()
}

fn rastrigin(x: &[f32]) -> f32 {
    10.0 * x.len() as f32
        + x.iter()
            .map(|v| v * v - 10.0 * (2.0 * std::f32::consts::PI * v).cos())
            .sum::<f32>()
}

fn ackley(x: &[f32]) -> f32 {
    let n = x.len() as f32;
    let rms = (x.iter().map(|v| v * v).sum::<f32>() / n).sqrt();
    let mcos = x.iter().map(|v| (2.0 * std::f32::consts::PI * v).cos()).sum::<f32>() / n;
    -20.0 * (-0.2 * rms).exp() - mcos.exp() + 20.0 + std::f32::consts::E
}

fn schwefel(x: &[f32]) -> f32 {
    418.9829 * x.len() as f32 - x.iter().map(|v| v * v.sqrt().sin()).sum::<f32>()
}

fn energies<const N: usize>(xs: &[[f32; N]], e: fn(&[f32]) -> f32) -> Vec<Binary32> {
    xs.iter().map(|x| b(e(x))).collect()
}

#[test]
fn parallel_sa_test_minimize_rastrigin() {
    let rng = RefCell::new(StdRand::seed(TEST_SEED));
    let result = minimize_numeric(
        800,
        10,
        b(0.01),
        [1.0f32; 2],
        |xs: &Vec<[f32; 2]>| energies(xs, rastrigin),
        |xs: &Vec<[f32; 2]>| perturb_batch(&rng, xs, 0.4),
        exponential_schedule(800.0, 0.8, 20),
        |c: &Vec<Binary32>, p: &Vec<Binary32>, k: Binary32, t: Binary32| {
            metropolis_mask(&rng, c, p, k, t)
        },
    );
    assert_eq!(result.len(), 800);
    let host_result: Vec<f32> = result[..2].iter().flatten().copied().collect();
    assert!(
        host_result.iter().all(|&x| x.abs() < 0.1),
        "Expected x_i = 0, got {host_result:?}"
    );
}

#[test]
fn parallel_sa_test_minimize_ackley() {
    let rng = RefCell::new(StdRand::seed(TEST_SEED));
    let result = minimize_numeric(
        100,
        100,
        b(0.001),
        [1.0f32; 3],
        |xs: &Vec<[f32; 3]>| energies(xs, ackley),
        |xs: &Vec<[f32; 3]>| perturb_batch(&rng, xs, 0.2),
        exponential_schedule(500.0, 0.8, 20),
        |c: &Vec<Binary32>, p: &Vec<Binary32>, k: Binary32, t: Binary32| {
            metropolis_mask(&rng, c, p, k, t)
        },
    );
    let host_result: Vec<f32> = result[..2].iter().flatten().copied().collect();
    assert!(
        host_result.iter().all(|&x| x.abs() < 0.11),
        "Expected x_i = 0, got {host_result:?}"
    );
}

#[test]
fn test_minimize_schwefel_small() {
    const EXPECTED: f32 = 420.9687;
    let rng = RefCell::new(StdRand::seed(TEST_SEED));
    let result = minimize_numeric(
        100,
        20,
        b(0.01),
        [380.0f32; 2],
        |xs: &Vec<[f32; 2]>| energies(xs, schwefel),
        |xs: &Vec<[f32; 2]>| perturb_batch(&rng, xs, 8.0),
        exponential_schedule(600.0, 0.75, 15),
        |c: &Vec<Binary32>, p: &Vec<Binary32>, k: Binary32, t: Binary32| {
            metropolis_mask(&rng, c, p, k, t)
        },
    );
    let host_result: Vec<f32> = result[..2].iter().flatten().copied().collect();
    assert!(
        host_result.iter().all(|&x| (x - EXPECTED).abs() < 1.0),
        "Expected x_i = {EXPECTED}, got: {host_result:?}"
    );
}

#[test]
fn every_chain_holds_the_elite_after_a_run() {
    let rng = RefCell::new(StdRand::seed(5));
    let result = minimize_numeric(
        64,
        7,
        b(1.0),
        [3.0f32],
        |xs: &Vec<[f32; 1]>| xs.iter().map(|x| b(x[0] * x[0])).collect(),
        |xs: &Vec<[f32; 1]>| perturb_batch(&rng, xs, 0.5),
        exponential_schedule(5.0, 0.5, 4),
        |c: &Vec<Binary32>, p: &Vec<Binary32>, k: Binary32, t: Binary32| {
            metropolis_mask(&rng, c, p, k, t)
        },
    );
    assert_eq!(result.len(), 64);
    assert!(result.iter().all(|x| x[0].to_bits() == result[0][0].to_bits()));
}

#[test]
fn empty_schedule_gives_copies_of_the_start() {
    let result = minimize_numeric(
        5,
        3,
        b(1.0),
        7u32,
        |xs: &Vec<u32>| xs.iter().map(|_| b(0.0)).collect(),
        |xs: &Vec<u32>| xs.iter().map(|x| x + 1).collect(),
        Vec::new(),
        |c: &Vec<Binary32>, _: &Vec<Binary32>, _: Binary32, _: Binary32| vec![true; c.len()],
    );
    assert_eq!(result, vec![7u32; 5]);
}

#[test]
fn collapse_uses_the_energies_of_the_last_round() {
    // Chain i proposes i+1 from every state; energies favour chain 2's proposal.
    let result = minimize_numeric(
        4,
        1,
        b(1.0),
        0u32,
        |xs: &Vec<u32>| xs.iter().map(|x| if *x == 3 { b(-1.0) } else { b(0.0) }).collect(),
        |xs: &Vec<u32>| xs.iter().enumerate().map(|(i, x)| x + i as u32 + 1).collect(),
        vec![b(1.0)],
        |c: &Vec<Binary32>, _: &Vec<Binary32>, _: Binary32, _: Binary32| vec![true; c.len()],
    );
    assert_eq!(result, vec![3u32; 4]);
}

#[test]
fn select_takes_masked_proposals() {
    let r = select(&vec![10, 20, 30], &vec![true, false, true], &vec![1, 2, 3]);
    assert_eq!(r, vec![10, 2, 30]);
}

#[test]
fn argmin_breaks_ties_by_first_occurrence() {
    assert_eq!(argmin(&vec![b(3.0), b(1.0), b(2.0), b(1.0)]), 1);
    assert_eq!(argmin(&vec![b(0.0), b(-0.0)]), 0);
    assert_eq!(argmin(&vec![b(5.0)]), 0);
}

#[test]
fn argmin_passes_over_nan() {
    assert_eq!(argmin(&vec![b(f32::NAN), b(2.0), b(f32::NAN), b(-4.0)]), 3);
    assert_eq!(argmin(&vec![b(f32::NAN), b(f32::NAN)]), 0);
    assert_eq!(argmin(&vec![]), 0);
}

#[test]
fn broadcast_and_collapse_replicate_the_elite() {
    assert_eq!(broadcast(4u8, 3), vec![4u8, 4, 4]);
    let r = collapse(&vec!['a', 'b', 'c'], &vec![b(2.0), b(-1.0), b(-1.0)]);
    assert_eq!(r, vec!['b', 'b', 'b']);
    assert_eq!(collapse::<u8>(&vec![], &vec![]), Vec::<u8>::new());
}
