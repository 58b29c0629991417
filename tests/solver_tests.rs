use rand::rngs::StdRng;
use rand::{Rng, SeedableRng};
use sbm::{
    check_parameters, pair_count_of, solve, spin_value, spins_from_signs, CouplingGraph, Real,
    SbParameters, SbSolver, Sign, SolveError,
};

#[derive(Clone, Copy, Debug, PartialEq)]
struct F(f32);

impl Real for F {
    // The meaning of each operation is the operation itself.
    fn spec_zero() -> Self {
        Self::zero()
    }
    fn spec_from_ratio(num: u64, den: u64) -> Self {
        Self::from_ratio(num, den)
    }
    fn spec_plus(self, other: Self) -> Self {
        self.plus(other)
    }
    fn spec_minus(self, other: Self) -> Self {
        self.minus(other)
    }
    fn spec_times(self, other: Self) -> Self {
        self.times(other)
    }
    fn spec_divided_by(self, other: Self) -> Self {
        self.divided_by(other)
    }
    fn spec_square_root(self) -> Self {
        self.square_root()
    }
    fn spec_sign(self) -> Sign {
        self.sign()
    }
    fn zero() -> Self {
        F(0.0)
    }
    fn from_ratio(num: u64, den: u64) -> Self {
        F(num as f32 / den as f32)
    }
    fn plus(self, other: Self) -> Self {
        F(self.0 + other.0)
    }
    fn minus(self, other: Self) -> Self {
        F(self.0 - other.0)
    }
    fn times(self, other: Self) -> Self {
        F(self.0 * other.0)
    }
    fn divided_by(self, other: Self) -> Self {
        F(self.0 / other.0)
    }
    fn square_root(self) -> Self {
        F(self.0.sqrt())
    }
    fn sign(self) -> Sign {
        if self.0 > 0.0 {
            Sign::Positive
        } else if self.0 < 0.0 {
            Sign::Negative
        } else {
            Sign::Zero
        }
    }
}

fn params(sub: u32, iters: u32) -> SbParameters<F> {
    SbParameters {
        alpha_0: F(1.0),
        alpha_1: F(1.0),
        time_step: F(0.01),
        sub_step_count: sub,
        iteration_count: iters,
    }
}

fn random_graph(n: usize, rng: &mut StdRng) -> CouplingGraph<F> {
    let count = pair_count_of(n).unwrap();
    let pairs: Vec<F> = (0..count).map(|_| F(rng.gen_range(1.0f32, 10000.0f32))).collect();
    CouplingGraph::new(n, &pairs)
}

fn random_momenta(n: usize, rng: &mut StdRng) -> Vec<F> {
    (0..n).map(|_| F(rng.gen_range(-0.1f32, 0.1f32))).collect()
}

#[test]
fn spins_follow_signs() {
    let signs = vec![Sign::Positive, Sign::Negative, Sign::Negative, Sign::Positive];
    assert_eq!(spins_from_signs(&signs), Ok(vec![1, -1, -1, 1]));
}

#[test]
fn spins_of_nothing_are_empty() {
    assert_eq!(spins_from_signs(&Vec::new()), Ok(Vec::new()));
}

#[test]
fn zero_sign_reports_first_index() {
    let signs = vec![Sign::Negative, Sign::Zero, Sign::Positive, Sign::Zero];
    assert_eq!(
        spins_from_signs(&signs),
        Err(SolveError::UndecidedOscillator { index: 1 })
    );
}

#[test]
fn spin_values() {
    assert_eq!(spin_value(Sign::Positive), 1);
    assert_eq!(spin_value(Sign::Negative), -1);
}

#[test]
fn parameter_checks() {
    assert_eq!(check_parameters(Sign::Positive, 10, 100), Ok(()));
    assert_eq!(check_parameters(Sign::Zero, 10, 100), Err(SolveError::NonPositiveTimeStep));
    assert_eq!(check_parameters(Sign::Negative, 0, 0), Err(SolveError::NonPositiveTimeStep));
    assert_eq!(check_parameters(Sign::Positive, 0, 0), Err(SolveError::ZeroSubSteps));
    assert_eq!(check_parameters(Sign::Positive, 1, 0), Err(SolveError::ZeroIterations));
}

#[test]
fn pair_counts() {
    assert_eq!(pair_count_of(0), Some(0));
    assert_eq!(pair_count_of(1), Some(0));
    assert_eq!(pair_count_of(2), Some(1));
    assert_eq!(pair_count_of(5), Some(10));
    assert_eq!(pair_count_of(1000), Some(499500));
    assert_eq!(pair_count_of(usize::MAX), None);
}

#[test]
fn graph_places_each_pair_in_both_cells() {
    let pairs: Vec<F> = (1..=6).map(|k| F(k as f32)).collect();
    let g = CouplingGraph::new(4, &pairs);
    assert_eq!(g.node_count(), 4);
    let expected = [
        [0.0, 1.0, 2.0, 3.0],
        [1.0, 0.0, 4.0, 5.0],
        [2.0, 4.0, 0.0, 6.0],
        [3.0, 5.0, 6.0, 0.0],
    ];
    for i in 0..4 {
        for j in 0..4 {
            assert_eq!(g.weight(i, j), F(expected[i][j]));
        }
    }
}

#[test]
fn random_graph_is_symmetric_with_zero_diagonal() {
    let mut rng = StdRng::seed_from_u64(7);
    for n in 0..12 {
        let g = random_graph(n, &mut rng);
        assert_eq!(g.node_count(), n);
        for i in 0..n {
            assert_eq!(g.weight(i, i), F(0.0));
            for j in 0..n {
                assert_eq!(g.weight(i, j), g.weight(j, i));
            }
        }
    }
}

#[test]
fn random_weights_lie_in_sampling_range() {
    let mut rng = StdRng::seed_from_u64(11);
    let g = random_graph(20, &mut rng);
    for i in 0..20 {
        for j in 0..20 {
            if i != j {
                let w = g.weight(i, j).0;
                assert!(w >= 1.0 && w < 10000.0);
            }
        }
    }
}

#[test]
fn spin_vector_has_one_valid_spin_per_node() {
    let mut rng = StdRng::seed_from_u64(3);
    for n in 1..10 {
        let g = random_graph(n, &mut rng);
        let spins = solve(&g, params(10, 100), random_momenta(n, &mut rng)).unwrap();
        assert_eq!(spins.len(), n);
        assert!(spins.iter().all(|&s| s == 1 || s == -1));
    }
}

#[test]
fn seeded_solves_are_identical() {
    let run = || {
        let mut rng = StdRng::seed_from_u64(42);
        let g = random_graph(8, &mut rng);
        solve(&g, params(10, 100), random_momenta(8, &mut rng))
    };
    let first = run();
    assert!(first.is_ok());
    assert_eq!(first, run());
}

#[test]
fn single_node_gives_single_spin() {
    let g = CouplingGraph::new(1, &Vec::<F>::new());
    let spins = solve(&g, params(10, 100), vec![F(0.05)]).unwrap();
    assert_eq!(spins.len(), 1);
    assert!(spins[0] == 1 || spins[0] == -1);
}

#[test]
fn empty_graph_gives_empty_spins() {
    let g = CouplingGraph::new(0, &Vec::<F>::new());
    assert_eq!(solve(&g, params(10, 100), Vec::new()), Ok(Vec::new()));
}

#[test]
fn strongly_coupled_pair_mostly_agrees() {
    let g = CouplingGraph::new(2, &vec![F(5000.0)]);
    assert_eq!(g.weight(0, 1), F(5000.0));
    assert_eq!(g.weight(1, 0), F(5000.0));
    let mut agree = 0;
    let trials = 200;
    for seed in 0..trials {
        let mut rng = StdRng::seed_from_u64(seed);
        let spins = solve(&g, params(10, 100), random_momenta(2, &mut rng)).unwrap();
        assert_eq!(spins.len(), 2);
        assert!(spins.iter().all(|&s| s == 1 || s == -1));
        if spins[0] == spins[1] {
            agree += 1;
        }
    }
    assert!(agree * 2 > trials);
}

#[test]
fn bad_configuration_is_rejected_before_work() {
    let g = CouplingGraph::new(2, &vec![F(5000.0)]);
    let m = vec![F(0.05), F(-0.05)];
    let mut p = params(10, 100);
    p.time_step = F(0.0);
    assert_eq!(solve(&g, p, m.clone()), Err(SolveError::NonPositiveTimeStep));
    p.time_step = F(-0.01);
    assert_eq!(solve(&g, p, m.clone()), Err(SolveError::NonPositiveTimeStep));
    assert_eq!(solve(&g, params(0, 100), m.clone()), Err(SolveError::ZeroSubSteps));
    assert_eq!(solve(&g, params(10, 0), m.clone()), Err(SolveError::ZeroIterations));
}

#[test]
fn oscillator_left_at_origin_is_reported() {
    let g = CouplingGraph::new(3, &vec![F(1.0), F(2.0), F(3.0)]);
    assert_eq!(
        solve(&g, params(10, 100), vec![F(0.0), F(0.0), F(0.0)]),
        Err(SolveError::UndecidedOscillator { index: 0 })
    );
}

#[test]
fn control_ramps_linearly_within_unit_interval() {
    let mut rng = StdRng::seed_from_u64(5);
    let g = random_graph(4, &mut rng);
    let mut run = SbSolver::new(&g, params(10, 8), random_momenta(4, &mut rng)).unwrap();
    assert_eq!(run.state().control(), F(0.0));
    assert_eq!(run.state().position(), &vec![F(0.0); 4]);
    let mut last = 0.0f32;
    let mut l = 0;
    while !run.is_finished() {
        run.outer_step(&g);
        let c = run.state().control().0;
        assert_eq!(c, l as f32 / 8.0);
        assert!(c >= last && c >= 0.0 && c <= 1.0);
        last = c;
        l += 1;
        assert_eq!(run.steps_made(), l);
    }
    assert_eq!(l, 8);
    assert_eq!(run.state().momentum().len(), 4);
    let spins = run.finish().unwrap();
    assert_eq!(spins.len(), 4);
}

#[test]
fn coupling_moves_an_oscillator_at_rest() {
    // the first oscillator starts at rest; only the coupling can move it
    let g = CouplingGraph::new(2, &vec![F(5000.0)]);
    let mut run = SbSolver::new(&g, params(10, 100), vec![F(0.0), F(0.1)]).unwrap();
    run.outer_step(&g);
    assert_eq!(run.state().position()[0], F(0.0));
    run.outer_step(&g);
    assert!(run.state().position()[0].0 > 0.0);
}

#[test]
fn single_node_follows_uncoupled_dynamics() {
    let g = CouplingGraph::new(1, &Vec::<F>::new());
    let q = -0.03f32;
    let (iters, subs, dt) = (100u32, 10u32, 0.01f32);
    let h = dt / subs as f32;
    let (mut x, mut p) = (0.0f32, q);
    for l in 0..iters {
        let c = l as f32 / iters as f32;
        p += 0.0;
        for _ in 0..subs {
            p += h * ((c - 1.0) * x - 1.0 * (x * x * x));
            x += h * p;
        }
    }
    let mut run = SbSolver::new(&g, params(subs, iters), vec![F(q)]).unwrap();
    while !run.is_finished() {
        run.outer_step(&g);
    }
    assert_eq!(run.state().position()[0].0, x);
    let expected = if x > 0.0 { 1 } else { -1 };
    assert_eq!(run.finish(), Ok(vec![expected]));
}
