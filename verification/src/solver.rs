//! Fixed-step classical Runge-Kutta integration of a compartment model's
//! linear ODE system, with an exact functional contract: the returned time
//! grid and state sequence are pinned to spec-level recurrences over the
//! binary64 operations, so identical inputs provably give identical output.

use vstd::prelude::*;

use crate::fp;
use crate::fp::{
    f_from_u64, f_is_finite, f_to_u64, fadd, fceil, fdiv, fle, fmul, fsub, F_SIX, F_TWO, F_ZERO,
};
use crate::models::{deriv_spec, n_compartments_spec, n_params_spec, CompartmentModel,
    ModelParameters, ModelState, ModelType};

verus! {

/// A fault while integrating.
#[derive(Debug, Clone, PartialEq)]
pub enum SolverError {
    IntegrationFailed(String),
    InvalidTimeStep(u64),
    MaxIterationsExceeded,
    NumericalInstability,
}

/// Integration settings; all real-valued fields are binary64 bit patterns.
#[derive(Debug, Clone)]
pub struct SolverConfig {
    pub absolute_tolerance: u64,
    pub relative_tolerance: u64,
    pub max_step_size: u64,
    pub min_step_size: u64,
    pub max_iterations: usize,
}

impl Default for SolverConfig {
    /// The stock settings: tolerances of 1e-8 and 1e-6, a unit maximum step.
    fn default() -> (r: Self)
        ensures
            r.absolute_tolerance == fp::F_1E_NEG_8,
            r.relative_tolerance == fp::F_1E_NEG_6,
            r.max_step_size == fp::F_ONE,
            r.min_step_size == fp::F_1E_NEG_12,
            r.max_iterations == 10000,
    {
        SolverConfig {
            absolute_tolerance: fp::F_1E_NEG_8,
            relative_tolerance: fp::F_1E_NEG_6,
            max_step_size: fp::F_ONE,
            min_step_size: fp::F_1E_NEG_12,
            max_iterations: 10000,
        }
    }
}

/// Elementwise `y + k * c` in binary64.
pub open spec fn axpy_spec(y: Seq<u64>, k: Seq<u64>, c: u64) -> Seq<u64> {
    Seq::new(y.len(), |i: int| fadd(y[i], fmul(k[i], c)))
}

/// One classical Runge-Kutta step of size `h` from state `y`: four
/// derivative evaluations combined as `y + (k1 + 2 k2 + 2 k3 + k4) (h/6)`,
/// with every operation the exact binary64 one.
pub open spec fn rk4_step_spec(mt: ModelType, fe: Seq<u64>, y: Seq<u64>, h: u64) -> Seq<u64> {
    let k1 = deriv_spec(mt, fe, y);
    let k2 = deriv_spec(mt, fe, axpy_spec(y, k1, fdiv(h, F_TWO)));
    let k3 = deriv_spec(mt, fe, axpy_spec(y, k2, fdiv(h, F_TWO)));
    let k4 = deriv_spec(mt, fe, axpy_spec(y, k3, h));
    Seq::new(
        y.len(),
        |i: int| fadd(
            y[i],
            fmul(
                fadd(fadd(fadd(k1[i], fmul(k2[i], F_TWO)), fmul(k3[i], F_TWO)), k4[i]),
                fdiv(h, F_SIX),
            ),
        ),
    )
}

/// The state after `k` Runge-Kutta steps of size `h` from `y0`.
pub open spec fn rk4_state_spec(mt: ModelType, fe: Seq<u64>, y0: Seq<u64>, h: u64, k: nat) -> Seq<
    u64,
>
    decreases k,
{
    if k == 0 {
        y0
    } else {
        rk4_step_spec(mt, fe, rk4_state_spec(mt, fe, y0, h, (k - 1) as nat), h)
    }
}

/// The time after `k` steps: `t0` advanced by `h`, `k` times over.
pub open spec fn time_at_spec(t0: u64, h: u64, k: nat) -> u64
    decreases k,
{
    if k == 0 {
        t0
    } else {
        fadd(time_at_spec(t0, h, (k - 1) as nat), h)
    }
}

/// How many equal steps cover a span `dt` under a step-size cap: the ceiling
/// of their quotient, at least one.
pub open spec fn n_steps_spec(dt: u64, max_step_size: u64) -> u64 {
    let n = f_to_u64(fceil(fdiv(dt, max_step_size)));
    if n < 1 {
        1u64
    } else {
        n
    }
}

/// Every component of the state is finite.
pub open spec fn state_ok_spec(y: Seq<u64>) -> bool {
    forall|i: int| 0 <= i < y.len() ==> f_is_finite(#[trigger] y[i])
}

/// What `solve` must return: for a positive span, the full grid of `n + 1`
/// times and states pinned to the Runge-Kutta recurrence, provided every
/// step stays finite; `InvalidTimeStep` exactly when the span is not
/// positive; `NumericalInstability` exactly when some step turns non-finite.
pub open spec fn solve_post(
    mt: ModelType,
    fe: Seq<u64>,
    t0: u64,
    t1: u64,
    y0: Seq<u64>,
    max_step_size: u64,
    r: Result<(Vec<u64>, Vec<Vec<u64>>), SolverError>,
) -> bool {
    let dt = fsub(t1, t0);
    let n = n_steps_spec(dt, max_step_size);
    let h = fdiv(dt, f_from_u64(n));
    match r {
        Ok((times, states)) => {
            &&& !fle(dt, F_ZERO)
            &&& forall|k: int| 1 <= k <= n ==> state_ok_spec(#[trigger] rk4_state_spec(mt, fe, y0, h, k as nat))
            &&& times@.len() == n + 1
            &&& states@.len() == n + 1
            &&& forall|k: int| 0 <= k <= n ==> #[trigger] times@[k] == time_at_spec(t0, h, k as nat)
            &&& forall|k: int|
                0 <= k <= n ==> (#[trigger] states@[k])@ == rk4_state_spec(mt, fe, y0, h, k as nat)
        },
        Err(e) => match e {
            SolverError::InvalidTimeStep(d) => fle(dt, F_ZERO) && d == dt,
            SolverError::NumericalInstability => {
                &&& !fle(dt, F_ZERO)
                &&& exists|k: int|
                    1 <= k <= n && !state_ok_spec(#[trigger] rk4_state_spec(mt, fe, y0, h, k as nat))
            },
            _ => false,
        },
    }
}

/// What `solve_to_time` must return: the final state of the grid `solve`
/// produces, with the same error behaviour.
pub open spec fn solve_to_time_post(
    mt: ModelType,
    fe: Seq<u64>,
    t0: u64,
    t1: u64,
    y0: Seq<u64>,
    max_step_size: u64,
    r: Result<Vec<u64>, SolverError>,
) -> bool {
    let dt = fsub(t1, t0);
    let n = n_steps_spec(dt, max_step_size);
    let h = fdiv(dt, f_from_u64(n));
    match r {
        Ok(y) => {
            &&& !fle(dt, F_ZERO)
            &&& forall|k: int| 1 <= k <= n ==> state_ok_spec(#[trigger] rk4_state_spec(mt, fe, y0, h, k as nat))
            &&& y@ == rk4_state_spec(mt, fe, y0, h, n as nat)
        },
        Err(e) => match e {
            SolverError::InvalidTimeStep(d) => fle(dt, F_ZERO) && d == dt,
            SolverError::NumericalInstability => {
                &&& !fle(dt, F_ZERO)
                &&& exists|k: int|
                    1 <= k <= n && !state_ok_spec(#[trigger] rk4_state_spec(mt, fe, y0, h, k as nat))
            },
            _ => false,
        },
    }
}

/// Whether every component of the vector is finite.
pub fn vec_all_finite(v: &Vec<u64>) -> (r: bool)
    ensures
        r == state_ok_spec(v@),
{
    let n = v.len();
    for i in 0..n
        invariant
            n == v@.len(),
            forall|k: int| 0 <= k < i ==> f_is_finite(#[trigger] v@[k]),
    {
        if !fp::is_finite(v[i]) {
            return false;
        }
    }
    true
}

/// Elementwise `y + k * c`.
fn axpy(y: &Vec<u64>, k: &Vec<u64>, c: u64) -> (r: Vec<u64>)
    requires
        k@.len() >= y@.len(),
    ensures
        r@ == axpy_spec(y@, k@, c),
{
    let n = y.len();
    let mut r: Vec<u64> = Vec::new();
    for i in 0..n
        invariant
            n == y@.len(),
            k@.len() >= n,
            r@.len() == i,
            forall|j: int| 0 <= j < i ==> r@[j] == fadd(y@[j], fmul(k@[j], c)),
    {
        r.push(fp::add(y[i], fp::mul(k[i], c)));
    }
    proof {
        assert(r@ =~= axpy_spec(y@, k@, c));
    }
    r
}

/// The classical fourth-order Runge-Kutta integrator; it is stateless.
pub struct RungeKuttaSolver {}

impl RungeKuttaSolver {
    pub fn new() -> (r: Self) {
        RungeKuttaSolver {  }
    }

    /// One Runge-Kutta step of size `h` at time-independent derivatives.
    fn rk4_step(
        &self,
        model: &CompartmentModel,
        params: &ModelParameters,
        t: u64,
        y: &Vec<u64>,
        h: u64,
    ) -> (r: Vec<u64>)
        requires
            y@.len() == n_compartments_spec(model.model_type),
            params.fixed_effects@.len() >= n_params_spec(model.model_type),
        ensures
            r@ == rk4_step_spec(model.model_type, params.fixed_effects@, y@, h),
            r@.len() == y@.len(),
    {
        let half_h = fp::div(h, F_TWO);
        let s1 = ModelState { compartments: crate::linalg::copy_vec(y), time: t };
        let k1 = model.derivatives(&s1, params);
        let s2 = ModelState { compartments: axpy(y, &k1, half_h), time: fadd_exec(t, half_h) };
        let k2 = model.derivatives(&s2, params);
        let s3 = ModelState { compartments: axpy(y, &k2, half_h), time: fadd_exec(t, half_h) };
        let k3 = model.derivatives(&s3, params);
        let s4 = ModelState { compartments: axpy(y, &k3, h), time: fadd_exec(t, h) };
        let k4 = model.derivatives(&s4, params);
        let h6 = fp::div(h, F_SIX);
        let n = y.len();
        let mut r: Vec<u64> = Vec::new();
        for i in 0..n
            invariant
                n == y@.len(),
                k1@.len() == n,
                k2@.len() == n,
                k3@.len() == n,
                k4@.len() == n,
                h6 == fdiv(h, F_SIX),
                r@.len() == i,
                forall|j: int|
                    0 <= j < i ==> r@[j] == fadd(
                        y@[j],
                        fmul(
                            fadd(
                                fadd(fadd(k1@[j], fmul(k2@[j], F_TWO)), fmul(k3@[j], F_TWO)),
                                k4@[j],
                            ),
                            fdiv(h, F_SIX),
                        ),
                    ),
        {
            let sum = fp::add(
                fp::add(fp::add(k1[i], fp::mul(k2[i], F_TWO)), fp::mul(k3[i], F_TWO)),
                k4[i],
            );
            r.push(fp::add(y[i], fp::mul(sum, h6)));
        }
        proof {
            assert(r@ =~= rk4_step_spec(model.model_type, params.fixed_effects@, y@, h));
        }
        r
    }

    /// Integrates the model's ODE system over `t_span` in `n` equal steps,
    /// `n` the ceiling of the span over the configured maximum step size.
    /// Returns the times and states of the whole grid.
    pub fn solve(
        &self,
        model: &CompartmentModel,
        params: &ModelParameters,
        t_span: (u64, u64),
        y0: &Vec<u64>,
        config: &SolverConfig,
    ) -> (r: Result<(Vec<u64>, Vec<Vec<u64>>), SolverError>)
        requires
            y0@.len() == n_compartments_spec(model.model_type),
            params.fixed_effects@.len() >= n_params_spec(model.model_type),
        ensures
            solve_post(
                model.model_type,
                params.fixed_effects@,
                t_span.0,
                t_span.1,
                y0@,
                config.max_step_size,
                r,
            ),
    {
        let ghost mt = model.model_type;
        let ghost fe = params.fixed_effects@;
        let dt = fp::sub(t_span.1, t_span.0);
        if fp::le(dt, F_ZERO) {
            return Err(SolverError::InvalidTimeStep(dt));
        }
        let n_raw = fp::to_u64(fp::ceil(fp::div(dt, config.max_step_size)));
        let n_steps: u64 = if n_raw < 1 {
            1
        } else {
            n_raw
        };
        let step_size = fp::div(dt, fp::from_u64(n_steps));

        let mut times: Vec<u64> = Vec::new();
        let mut solutions: Vec<Vec<u64>> = Vec::new();

        let mut t = t_span.0;
        let mut y = crate::linalg::copy_vec(y0);

        times.push(t);
        solutions.push(crate::linalg::copy_vec(&y));

        let mut k: u64 = 0;
        while k < n_steps
            invariant
                0 <= k <= n_steps,
                n_steps == n_steps_spec(fsub(t_span.1, t_span.0), config.max_step_size),
                step_size == fdiv(fsub(t_span.1, t_span.0), f_from_u64(n_steps)),
                !fle(fsub(t_span.1, t_span.0), F_ZERO),
                y0@.len() == n_compartments_spec(mt),
                fe.len() >= n_params_spec(mt),
                mt == model.model_type,
                fe == params.fixed_effects@,
                y@ == rk4_state_spec(mt, fe, y0@, step_size, k as nat),
                y@.len() == y0@.len(),
                t == time_at_spec(t_span.0, step_size, k as nat),
                times@.len() == k + 1,
                solutions@.len() == k + 1,
                forall|j: int|
                    0 <= j <= k ==> #[trigger] times@[j] == time_at_spec(t_span.0, step_size, j as nat),
                forall|j: int|
                    0 <= j <= k ==> (#[trigger] solutions@[j])@ == rk4_state_spec(
                        mt,
                        fe,
                        y0@,
                        step_size,
                        j as nat,
                    ),
                forall|j: int|
                    1 <= j <= k ==> state_ok_spec(#[trigger] rk4_state_spec(mt, fe, y0@, step_size, j as nat)),
            decreases n_steps - k,
        {
            y = self.rk4_step(model, params, t, &y, step_size);
            t = fp::add(t, step_size);
            k = k + 1;

            if !vec_all_finite(&y) {
                proof {
                    let kw: int = k as int;
                    assert(!state_ok_spec(rk4_state_spec(mt, fe, y0@, step_size, kw as nat)));
                    assert(exists|j: int|
                        1 <= j <= n_steps && !state_ok_spec(
                            #[trigger] rk4_state_spec(mt, fe, y0@, step_size, j as nat),
                        ));
                }
                return Err(SolverError::NumericalInstability);
            }

            times.push(t);
            solutions.push(crate::linalg::copy_vec(&y));
        }

        Ok((times, solutions))
    }

    /// Integrates as `solve` does and returns only the final state.
    pub fn solve_to_time(
        &self,
        model: &CompartmentModel,
        params: &ModelParameters,
        t_start: u64,
        t_end: u64,
        y0: &Vec<u64>,
        config: &SolverConfig,
    ) -> (r: Result<Vec<u64>, SolverError>)
        requires
            y0@.len() == n_compartments_spec(model.model_type),
            params.fixed_effects@.len() >= n_params_spec(model.model_type),
        ensures
            solve_to_time_post(
                model.model_type,
                params.fixed_effects@,
                t_start,
                t_end,
                y0@,
                config.max_step_size,
                r,
            ),
    {
        match self.solve(model, params, (t_start, t_end), y0, config) {
            Ok((_times, mut solutions)) => {
                let last = solutions.pop().unwrap();
                Ok(last)
            },
            Err(e) => Err(e),
        }
    }
}

/// Binary64 addition, locally named so struct literals stay readable.
fn fadd_exec(a: u64, b: u64) -> (r: u64)
    ensures
        r == fadd(a, b),
{
    fp::add(a, b)
}


/// The integrator as a function: what a successful or failed call to
/// `solve_to_time` yields, determined by the inputs alone.
pub open spec fn integ_spec(
    mt: ModelType,
    fe: Seq<u64>,
    t0: u64,
    t1: u64,
    y0: Seq<u64>,
    max_step_size: u64,
) -> Result<Seq<u64>, SolverError> {
    let dt = fsub(t1, t0);
    let n = n_steps_spec(dt, max_step_size);
    let h = fdiv(dt, f_from_u64(n));
    if fle(dt, F_ZERO) {
        Err(SolverError::InvalidTimeStep(dt))
    } else if exists|k: int|
        1 <= k <= n && !state_ok_spec(#[trigger] rk4_state_spec(mt, fe, y0, h, k as nat)) {
        Err(SolverError::NumericalInstability)
    } else {
        Ok(rk4_state_spec(mt, fe, y0, h, n as nat))
    }
}

/// A `Result` of a state vector, seen through the vector's view.
pub open spec fn state_view(r: Result<Vec<u64>, SolverError>) -> Result<Seq<u64>, SolverError> {
    match r {
        Ok(v) => Ok(v@),
        Err(e) => Err(e),
    }
}

/// Any result satisfying `solve_to_time`'s contract is exactly the value of
/// `integ_spec` at the same inputs: the integrator is a function of its
/// inputs.
pub proof fn lemma_solve_to_time_is_integ(
    mt: ModelType,
    fe: Seq<u64>,
    t0: u64,
    t1: u64,
    y0: Seq<u64>,
    max_step_size: u64,
    r: Result<Vec<u64>, SolverError>,
)
    requires
        solve_to_time_post(mt, fe, t0, t1, y0, max_step_size, r),
    ensures
        state_view(r) == integ_spec(mt, fe, t0, t1, y0, max_step_size),
{
}

/// A Runge-Kutta step keeps the state dimension.
pub proof fn lemma_rk4_state_len(mt: ModelType, fe: Seq<u64>, y0: Seq<u64>, h: u64, k: nat)
    ensures
        rk4_state_spec(mt, fe, y0, h, k).len() == y0.len(),
    decreases k,
{
    if k > 0 {
        lemma_rk4_state_len(mt, fe, y0, h, (k - 1) as nat);
    }
}

/// A successful integration keeps the state dimension.
pub proof fn lemma_integ_len(
    mt: ModelType,
    fe: Seq<u64>,
    t0: u64,
    t1: u64,
    y0: Seq<u64>,
    max_step_size: u64,
)
    ensures
        integ_spec(mt, fe, t0, t1, y0, max_step_size) matches Ok(v) ==> v.len() == y0.len(),
{
    let dt = fsub(t1, t0);
    let n = n_steps_spec(dt, max_step_size);
    let h = fdiv(dt, f_from_u64(n));
    lemma_rk4_state_len(mt, fe, y0, h, n as nat);
}


/// The integrator is deterministic: any two results meeting `solve`'s
/// contract at the same model, parameters, span, start state and step cap
/// carry the same times, the same states and the same error.
pub proof fn lemma_solve_deterministic(
    mt: ModelType,
    fe: Seq<u64>,
    t0: u64,
    t1: u64,
    y0: Seq<u64>,
    max_step_size: u64,
    r1: Result<(Vec<u64>, Vec<Vec<u64>>), SolverError>,
    r2: Result<(Vec<u64>, Vec<Vec<u64>>), SolverError>,
)
    requires
        solve_post(mt, fe, t0, t1, y0, max_step_size, r1),
        solve_post(mt, fe, t0, t1, y0, max_step_size, r2),
    ensures
        match (r1, r2) {
            (Ok(a), Ok(b)) => a.0@ == b.0@ && a.1@.len() == b.1@.len() && (forall|k: int|
                0 <= k < a.1@.len() ==> (#[trigger] a.1@[k])@ == b.1@[k]@),
            (Err(e1), Err(e2)) => e1 == e2,
            _ => false,
        },
{
    match (r1, r2) {
        (Ok(a), Ok(b)) => {
            assert(a.0@ =~= b.0@);
        },
        _ => {},
    }
}

/// The final state of `solve_to_time` is likewise a function of its inputs.
pub proof fn lemma_solve_to_time_deterministic(
    mt: ModelType,
    fe: Seq<u64>,
    t0: u64,
    t1: u64,
    y0: Seq<u64>,
    max_step_size: u64,
    r1: Result<Vec<u64>, SolverError>,
    r2: Result<Vec<u64>, SolverError>,
)
    requires
        solve_to_time_post(mt, fe, t0, t1, y0, max_step_size, r1),
        solve_to_time_post(mt, fe, t0, t1, y0, max_step_size, r2),
    ensures
        state_view(r1) == state_view(r2),
{
    lemma_solve_to_time_is_integ(mt, fe, t0, t1, y0, max_step_size, r1);
    lemma_solve_to_time_is_integ(mt, fe, t0, t1, y0, max_step_size, r2);
}

} // verus!
