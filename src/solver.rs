use vstd::prelude::*;
use crate::graph::CouplingGraph;
use crate::params::{SbParameters, SolveError, check_parameters, parameter_error};
use crate::scalar::{Real, Sign};
use crate::spin::{spins_from_signs, spin_of, spins_match, lemma_spins_match_unique};

verus! {

/// The coupling gain is `GAIN_NUMERATOR / GAIN_DENOMINATOR * alpha_0 / sqrt(n)`
/// for a graph of `n` nodes.
pub const GAIN_NUMERATOR: u64 = 7;

/// See `GAIN_NUMERATOR`.
pub const GAIN_DENOMINATOR: u64 = 10;

/// Positions, momenta and the control value of all oscillators during a run.
pub struct OscillatorState<T> {
    position: Vec<T>,
    momentum: Vec<T>,
    control: T,
}

impl<T: Real> OscillatorState<T> {
    pub closed spec fn spec_position(&self) -> Seq<T> {
        self.position@
    }

    pub closed spec fn spec_momentum(&self) -> Seq<T> {
        self.momentum@
    }

    pub closed spec fn spec_control(&self) -> T {
        self.control
    }

    /// The generalized coordinate of every oscillator.
    pub fn position(&self) -> (r: &Vec<T>)
        ensures
            r@ == self.spec_position(),
    {
        &self.position
    }

    /// The generalized momentum of every oscillator.
    pub fn momentum(&self) -> (r: &Vec<T>)
        ensures
            r@ == self.spec_momentum(),
    {
        &self.momentum
    }

    /// The current value of the bifurcation control.
    pub fn control(&self) -> (r: T)
        ensures
            r == self.spec_control(),
    {
        self.control
    }
}

/// The control value during outer step `step` of `total`, as the fraction
/// `(numerator, denominator)`: the ramp is linear, `step / total`, and the
/// solver's control during that step is `T::spec_from_ratio(step, total)`.
pub open spec fn control_fraction(step: nat, total: nat) -> (nat, nat) {
    (step, total)
}

/// `a <= b` for fractions with positive denominators.
pub open spec fn fraction_le(a: (nat, nat), b: (nat, nat)) -> bool {
    a.0 * b.1 <= b.0 * a.1
}

/// The control value during outer step `step`.
pub open spec fn control_at<T: Real>(step: nat, params: SbParameters<T>) -> T {
    T::spec_from_ratio(step as u64, params.iteration_count as u64)
}

/// The coupling gain `0.7 * alpha_0 / sqrt(n)` for a graph of `n` nodes.
pub open spec fn coupling_gain_of<T: Real>(alpha_0: T, n: u64) -> T {
    T::spec_from_ratio(GAIN_NUMERATOR, GAIN_DENOMINATOR).spec_times(alpha_0).spec_divided_by(
        T::spec_from_ratio(n, 1).spec_square_root(),
    )
}

/// The length of one sub-step, `time_step / sub_step_count`.
pub open spec fn sub_time_step_of<T: Real>(params: SbParameters<T>) -> T {
    params.time_step.spec_divided_by(T::spec_from_ratio(params.sub_step_count as u64, 1))
}

/// `sum_{j < count} w[i][j] * x[j]`, summed in order of `j` from zero.
pub open spec fn coupling_sum<T: Real>(w: Seq<Seq<T>>, x: Seq<T>, i: int, count: nat) -> T
    decreases count,
{
    if count == 0 {
        T::spec_zero()
    } else {
        let j = count - 1;
        coupling_sum(w, x, i, j as nat).spec_plus(w[i][j].spec_times(x[j]))
    }
}

/// The impulse that the coupling gives oscillator `i` at positions `x`:
/// `time_step * gain * sum_j w[i][j] * x[j]`.
pub open spec fn impulse_of<T: Real>(w: Seq<Seq<T>>, x: Seq<T>, i: int, time_step: T, gain: T) -> T {
    time_step.spec_times(gain).spec_times(coupling_sum(w, x, i, x.len()))
}

/// One sub-step of an oscillator's own dynamics, from momentum `p` and position
/// `x`: the momentum moves first, by `dt * (-(alpha_0 - c) * x - alpha_1 * x^3)`,
/// then the position, by `dt` times the new momentum. Gives `(p, x)` after.
pub open spec fn sub_step_of<T: Real>(p: T, x: T, c: T, alpha_0: T, alpha_1: T, dt: T) -> (T, T) {
    let force = c.spec_minus(alpha_0).spec_times(x).spec_minus(alpha_1.spec_times(x.spec_times(x).spec_times(x)));
    let p1 = p.spec_plus(dt.spec_times(force));
    (p1, x.spec_plus(dt.spec_times(p1)))
}

/// `m` sub-steps in a row.
pub open spec fn sub_steps_of<T: Real>(p: T, x: T, m: nat, c: T, alpha_0: T, alpha_1: T, dt: T) -> (T, T)
    decreases m,
{
    if m == 0 {
        (p, x)
    } else {
        let prev = sub_steps_of(p, x, (m - 1) as nat, c, alpha_0, alpha_1, dt);
        sub_step_of(prev.0, prev.1, c, alpha_0, alpha_1, dt)
    }
}

/// Momentum and position of oscillator `i` after outer step `step`, from
/// positions `x` and momenta `p` at the start of the step.
pub open spec fn oscillator_after<T: Real>(
    w: Seq<Seq<T>>,
    x: Seq<T>,
    p: Seq<T>,
    params: SbParameters<T>,
    step: nat,
    i: int,
) -> (T, T) {
    let gain = coupling_gain_of(params.alpha_0, x.len() as u64);
    sub_steps_of(
        p[i].spec_plus(impulse_of(w, x, i, params.time_step, gain)),
        x[i],
        params.sub_step_count as nat,
        control_at(step, params),
        params.alpha_0,
        params.alpha_1,
        sub_time_step_of(params),
    )
}

/// Positions and momenta after outer step `step`, from positions `x` and
/// momenta `p` at its start.
pub open spec fn outer_step_of<T: Real>(
    w: Seq<Seq<T>>,
    x: Seq<T>,
    p: Seq<T>,
    params: SbParameters<T>,
    step: nat,
) -> (Seq<T>, Seq<T>) {
    (
        Seq::new(x.len(), |i: int| oscillator_after(w, x, p, params, step, i).1),
        Seq::new(x.len(), |i: int| oscillator_after(w, x, p, params, step, i).0),
    )
}

/// Positions and momenta after `steps` outer steps, starting from every
/// position at zero and the momenta `p0`.
pub open spec fn run_of<T: Real>(w: Seq<Seq<T>>, params: SbParameters<T>, p0: Seq<T>, steps: nat) -> (Seq<T>, Seq<T>)
    decreases steps,
{
    if steps == 0 {
        (Seq::new(p0.len(), |i: int| T::spec_zero()), p0)
    } else {
        let prev = run_of(w, params, p0, (steps - 1) as nat);
        outer_step_of(w, prev.0, prev.1, params, (steps - 1) as nat)
    }
}

/// The positions at the end of a whole run.
pub open spec fn final_positions<T: Real>(w: Seq<Seq<T>>, params: SbParameters<T>, p0: Seq<T>) -> Seq<T> {
    run_of(w, params, p0, params.iteration_count as nat).0
}

/// The sign of every position.
pub open spec fn signs_of<T: Real>(x: Seq<T>) -> Seq<Sign> {
    x.map_values(|v: T| v.spec_sign())
}

/// Runs simulated bifurcation on one graph: the state of a run between outer
/// steps.
///
/// A run is `Evolving` while outer steps remain, and ends with `finish`, which
/// consumes it, so that no position or momentum can change afterwards.
pub struct SbSolver<T> {
    params: SbParameters<T>,
    state: OscillatorState<T>,
    coupling_gain: T,
    sub_time_step: T,
    step: u32,
}

impl<T: Real> SbSolver<T> {
    /// Number of oscillators.
    pub closed spec fn oscillator_count(&self) -> nat {
        self.state.position@.len()
    }

    /// Outer steps made so far.
    pub closed spec fn steps_done(&self) -> nat {
        self.step as nat
    }

    /// Outer steps that the run makes in all.
    pub closed spec fn steps_total(&self) -> nat {
        self.params.iteration_count as nat
    }

    pub closed spec fn spec_state(&self) -> OscillatorState<T> {
        self.state
    }

    pub closed spec fn spec_params(&self) -> SbParameters<T> {
        self.params
    }

    pub closed spec fn wf(&self) -> bool {
        &&& self.state.momentum@.len() == self.state.position@.len()
        &&& self.params.sub_step_count > 0
        &&& self.params.iteration_count > 0
        &&& self.step <= self.params.iteration_count
        &&& self.coupling_gain == coupling_gain_of(self.params.alpha_0, self.state.position@.len() as u64)
        &&& self.sub_time_step == sub_time_step_of(self.params)
    }

    /// Starts a run on `graph`: positions at zero, momenta as given, control at
    /// zero, no outer step made.
    ///
    /// Fails, before any work, exactly when the time step is not positive or a
    /// count is zero.
    pub fn new(graph: &CouplingGraph<T>, params: SbParameters<T>, initial_momentum: Vec<T>) -> (r: Result<Self, SolveError>)
        requires
            graph.wf(),
            initial_momentum@.len() == graph@.len(),
        ensures
            parameter_error(params.time_step.spec_sign(), params.sub_step_count, params.iteration_count) matches Some(e)
                ==> (r is Err && r->Err_0 == e),
            parameter_error(params.time_step.spec_sign(), params.sub_step_count, params.iteration_count) is None
                ==> r is Ok,
            r matches Ok(s) ==> {
                &&& s.wf()
                &&& s.oscillator_count() == graph@.len()
                &&& s.steps_done() == 0
                &&& s.steps_total() == params.iteration_count
                &&& s.spec_params() == params
                &&& s.spec_state().spec_control() == T::spec_zero()
                &&& (s.spec_state().spec_position(), s.spec_state().spec_momentum())
                    == run_of(graph@, params, initial_momentum@, 0)
            },
    {
        let sign = params.time_step.sign();
        match check_parameters(sign, params.sub_step_count, params.iteration_count) {
            Err(e) => {
                return Err(e);
            },
            Ok(()) => {},
        }
        let n = graph.node_count();
        let mut position: Vec<T> = Vec::with_capacity(n);
        let mut i: usize = 0;
        while i < n
            invariant
                i <= n,
                position@.len() == i,
                forall|k: int| 0 <= k < i ==> #[trigger] position@[k] == T::spec_zero(),
            decreases n - i,
        {
            position.push(T::zero());
            i = i + 1;
        }
        assert(position@ =~= Seq::new(initial_momentum@.len(), |k: int| T::spec_zero()));
        let nodes = T::from_ratio(n as u64, 1);
        let coupling_gain = T::from_ratio(GAIN_NUMERATOR, GAIN_DENOMINATOR).times(params.alpha_0).divided_by(
            nodes.square_root(),
        );
        let sub_time_step = params.time_step.divided_by(T::from_ratio(params.sub_step_count as u64, 1));
        let state = OscillatorState { position, momentum: initial_momentum, control: T::zero() };
        Ok(SbSolver { params, state, coupling_gain, sub_time_step, step: 0 })
    }

    /// True once every outer step has been made.
    pub fn is_finished(&self) -> (r: bool)
        requires
            self.wf(),
        ensures
            r == (self.steps_done() == self.steps_total()),
    {
        self.step == self.params.iteration_count
    }

    /// Outer steps made so far.
    pub fn steps_made(&self) -> (r: u32)
        ensures
            r == self.steps_done(),
    {
        self.step
    }

    /// The oscillators as they stand.
    pub fn state(&self) -> (r: &OscillatorState<T>)
        ensures
            *r == self.spec_state(),
    {
        &self.state
    }

    /// The impulse that the coupling gives oscillator `i`:
    /// `time_step * coupling_gain * sum_j weight(i, j) * position[j]`.
    fn coupling_impulse(&self, graph: &CouplingGraph<T>, i: usize) -> (r: T)
        requires
            self.wf(),
            graph.wf(),
            graph@.len() == self.oscillator_count(),
            i < graph@.len(),
        ensures
            r == impulse_of(graph@, self.state.position@, i as int, self.params.time_step, self.coupling_gain),
    {
        let n = graph.node_count();
        let mut sum = T::zero();
        let mut j: usize = 0;
        while j < n
            invariant
                j <= n,
                n == graph@.len(),
                n == self.state.position@.len(),
                i < n,
                graph.wf(),
                sum == coupling_sum(graph@, self.state.position@, i as int, j as nat),
            decreases n - j,
        {
            sum = sum.plus(graph.weight(i, j).times(self.state.position[j]));
            j = j + 1;
        }
        self.params.time_step.times(self.coupling_gain).times(sum)
    }

    /// Makes one outer step: sets the control to `step / iteration_count`,
    /// applies the coupling impulse computed from the positions at the start of
    /// the step to every momentum, then integrates each oscillator's own
    /// dynamics over `sub_step_count` sub-steps, momentum before position.
    pub fn outer_step(&mut self, graph: &CouplingGraph<T>)
        requires
            old(self).wf(),
            graph.wf(),
            graph@.len() == old(self).oscillator_count(),
            old(self).steps_done() < old(self).steps_total(),
        ensures
            final(self).wf(),
            final(self).oscillator_count() == old(self).oscillator_count(),
            final(self).steps_total() == old(self).steps_total(),
            final(self).steps_done() == old(self).steps_done() + 1,
            final(self).spec_params() == old(self).spec_params(),
            final(self).spec_state().spec_control() == control_at(old(self).steps_done(), old(self).spec_params()),
            (final(self).spec_state().spec_position(), final(self).spec_state().spec_momentum()) == outer_step_of(
                graph@,
                old(self).spec_state().spec_position(),
                old(self).spec_state().spec_momentum(),
                old(self).spec_params(),
                old(self).steps_done(),
            ),
    {
        let ghost before = *self;
        let n = graph.node_count();
        let control = T::from_ratio(self.step as u64, self.params.iteration_count as u64);
        self.state.control = control;

        let mut impulse: Vec<T> = Vec::with_capacity(n);
        let mut i: usize = 0;
        while i < n
            invariant
                i <= n,
                n == graph@.len(),
                n == self.oscillator_count(),
                graph.wf(),
                self.wf(),
                self.state.position@ == before.state.position@,
                self.params == before.params,
                self.coupling_gain == before.coupling_gain,
                impulse@.len() == i,
                forall|k: int| 0 <= k < i ==> #[trigger] impulse@[k] == impulse_of(
                    graph@,
                    before.state.position@,
                    k,
                    before.params.time_step,
                    before.coupling_gain,
                ),
            decreases n - i,
        {
            impulse.push(self.coupling_impulse(graph, i));
            i = i + 1;
        }

        let alpha_0 = self.params.alpha_0;
        let alpha_1 = self.params.alpha_1;
        let dt = self.sub_time_step;
        let subs = self.params.sub_step_count;
        let ghost x0 = before.state.position@;
        let ghost p0 = before.state.momentum@;
        let ghost params = before.params;
        let ghost step = before.step as nat;
        i = 0;
        while i < n
            invariant
                i <= n,
                n == impulse@.len(),
                n == x0.len(),
                n == self.state.position@.len(),
                n == self.state.momentum@.len(),
                self.params == params,
                self.step == before.step,
                self.coupling_gain == before.coupling_gain,
                self.sub_time_step == before.sub_time_step,
                self.state.control == control,
                control == control_at(step, params),
                alpha_0 == params.alpha_0,
                alpha_1 == params.alpha_1,
                subs == params.sub_step_count,
                dt == sub_time_step_of(params),
                before.coupling_gain == coupling_gain_of(params.alpha_0, x0.len() as u64),
                forall|k: int| 0 <= k < n ==> #[trigger] impulse@[k] == impulse_of(
                    graph@,
                    x0,
                    k,
                    params.time_step,
                    before.coupling_gain,
                ),
                forall|k: int| 0 <= k < i ==> #[trigger] self.state.position@[k] == oscillator_after(graph@, x0, p0, params, step, k).1,
                forall|k: int| 0 <= k < i ==> #[trigger] self.state.momentum@[k] == oscillator_after(graph@, x0, p0, params, step, k).0,
                forall|k: int| i <= k < n ==> #[trigger] self.state.position@[k] == x0[k],
                forall|k: int| i <= k < n ==> #[trigger] self.state.momentum@[k] == p0[k],
            decreases n - i,
        {
            let mut p = self.state.momentum[i].plus(impulse[i]);
            let mut x = self.state.position[i];
            let ghost p_start = p;
            let ghost x_start = x;
            let mut m: u32 = 0;
            while m < subs
                invariant
                    m <= subs,
                    (p, x) == sub_steps_of(p_start, x_start, m as nat, control, alpha_0, alpha_1, dt),
                decreases subs - m,
            {
                let force = control.minus(alpha_0).times(x).minus(alpha_1.times(x.times(x).times(x)));
                p = p.plus(dt.times(force));
                x = x.plus(dt.times(p));
                m = m + 1;
            }
            assert((p, x) == oscillator_after(graph@, x0, p0, params, step, i as int));
            self.state.momentum.set(i, p);
            self.state.position.set(i, x);
            i = i + 1;
        }
        self.step = self.step + 1;
        assert(self.state.position@ =~= outer_step_of(graph@, x0, p0, params, step).0);
        assert(self.state.momentum@ =~= outer_step_of(graph@, x0, p0, params, step).1);
    }

    /// Ends the run and reads a spin from the sign of each final position.
    ///
    /// Succeeds exactly when no position is zero; otherwise fails with the first
    /// oscillator that ended exactly at the origin.
    pub fn finish(self) -> (r: Result<Vec<i8>, SolveError>)
        requires
            self.wf(),
        ensures
            spins_match(signs_of(self.spec_state().spec_position()), r),
            r matches Ok(spins) ==> {
                &&& spins@.len() == self.oscillator_count()
                &&& forall|i: int| 0 <= i < spins@.len() ==> spins@[i] == 1 || spins@[i] == -1
            },
            r matches Err(e) ==> (e matches SolveError::UndecidedOscillator { index }
                && index < self.oscillator_count()),
    {
        let n = self.state.position.len();
        let mut signs: Vec<Sign> = Vec::with_capacity(n);
        let mut i: usize = 0;
        while i < n
            invariant
                i <= n,
                n == self.state.position@.len(),
                signs@.len() == i,
                forall|k: int| 0 <= k < i ==> #[trigger] signs@[k] == self.state.position@[k].spec_sign(),
            decreases n - i,
        {
            signs.push(self.state.position[i].sign());
            i = i + 1;
        }
        assert(signs@ =~= signs_of(self.state.position@));
        let r = spins_from_signs(&signs);
        proof {
            if r is Ok {
                let spins = r->Ok_0;
                assert forall|k: int| 0 <= k < spins@.len() implies spins@[k] == 1 || spins@[k] == -1 by {
                    assert(spins@[k] == spin_of(signs@[k]));
                }
            }
        }
        r
    }
}

/// What a solve on weights `w` from initial momenta `p0` returns: the
/// configuration error, if any; otherwise the spins read from the signs of the
/// final positions.
pub open spec fn is_solve_result<T: Real>(
    w: Seq<Seq<T>>,
    params: SbParameters<T>,
    p0: Seq<T>,
    r: Result<Vec<i8>, SolveError>,
) -> bool {
    match parameter_error(params.time_step.spec_sign(), params.sub_step_count, params.iteration_count) {
        Some(e) => r == Err::<Vec<i8>, SolveError>(e),
        None => spins_match(signs_of(final_positions(w, params, p0)), r),
    }
}

/// Solves on equal inputs have equal outcomes: the same spins, or the same
/// error.
pub proof fn lemma_solve_deterministic<T: Real>(
    w: Seq<Seq<T>>,
    params: SbParameters<T>,
    p0: Seq<T>,
    r1: Result<Vec<i8>, SolveError>,
    r2: Result<Vec<i8>, SolveError>,
)
    requires
        is_solve_result(w, params, p0, r1),
        is_solve_result(w, params, p0, r2),
    ensures
        r1 is Ok <==> r2 is Ok,
        r1 is Ok ==> r1->Ok_0@ == r2->Ok_0@,
        r1 is Err ==> r1->Err_0 == r2->Err_0,
{
    if parameter_error(params.time_step.spec_sign(), params.sub_step_count, params.iteration_count) is None {
        lemma_spins_match_unique(signs_of(final_positions(w, params, p0)), r1, r2);
    }
}

/// Runs simulated bifurcation on `graph` from the given initial momenta and
/// returns one spin, -1 or +1, per node.
///
/// Fails before any work on a bad configuration. Otherwise the spins are the
/// signs of the positions at the end of the run, and the run fails exactly
/// when one of them is zero, naming the first such oscillator.
pub fn solve<T: Real>(graph: &CouplingGraph<T>, params: SbParameters<T>, initial_momentum: Vec<T>) -> (r: Result<Vec<i8>, SolveError>)
    requires
        graph.wf(),
        initial_momentum@.len() == graph@.len(),
    ensures
        is_solve_result(graph@, params, initial_momentum@, r),
        r matches Ok(spins) ==> {
            &&& spins@.len() == graph@.len()
            &&& forall|i: int| 0 <= i < spins@.len() ==> spins@[i] == 1 || spins@[i] == -1
        },
{
    let ghost p0 = initial_momentum@;
    let mut run = match SbSolver::new(graph, params, initial_momentum) {
        Ok(s) => s,
        Err(e) => {
            return Err(e);
        },
    };
    while !run.is_finished()
        invariant
            run.wf(),
            graph.wf(),
            run.oscillator_count() == graph@.len(),
            run.steps_done() <= run.steps_total(),
            run.steps_total() == params.iteration_count,
            run.spec_params() == params,
            (run.spec_state().spec_position(), run.spec_state().spec_momentum())
                == run_of(graph@, params, p0, run.steps_done()),
        decreases run.steps_total() - run.steps_done(),
    {
        run.outer_step(graph);
    }
    run.finish()
}

/// The control ramp starts at zero, never decreases from one outer step to a
/// later one, and stays at most one. During outer step `l` the solver's control
/// is `control_at(l, params)`, the fraction `l / iteration_count`.
pub proof fn lemma_control_ramp(total: nat, earlier: nat, later: nat)
    requires
        0 < total,
        earlier <= later < total,
    ensures
        fraction_le((0, 1), control_fraction(earlier, total)),
        fraction_le(control_fraction(earlier, total), control_fraction(later, total)),
        fraction_le(control_fraction(later, total), (1, 1)),
        control_fraction(0, total).0 == 0,
{
    assert(earlier * total <= later * total) by (nonlinear_arith)
        requires earlier <= later;
}

/// On a graph of one node the coupling sum only ever multiplies the position
/// by the zero diagonal weight: the node has no coupling partner.
pub proof fn lemma_single_node_coupling<T: Real>(g: &CouplingGraph<T>, x: Seq<T>)
    requires
        g.wf(),
        g@.len() == 1,
        x.len() == 1,
    ensures
        coupling_sum(g@, x, 0, 1) == T::spec_zero().spec_plus(T::spec_zero().spec_times(x[0])),
{
    assert(g@[0][0] == T::spec_zero());
    assert(coupling_sum(g@, x, 0, 0) == T::spec_zero());
}

} // verus!
