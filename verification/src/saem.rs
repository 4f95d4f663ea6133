//! The SAEM estimator: a stochastic-approximation EM loop whose E-step runs
//! the Metropolis-Hastings sampler once per individual per iteration and
//! whose M-step blends the draws into the population parameters with a
//! decreasing gain.  The whole fit is pinned to a spec-level recurrence over
//! the base seed, so two fits with the same seed, dataset and configuration
//! provably produce the same results.

use vstd::prelude::*;

use crate::config::EstimationConfig;
use crate::data::{Dataset, Individual};
use crate::fp;
use crate::fp::{
    f_abs_bits, f_from_u64, fadd, fdiv, flt, fmax, fmin, fmul, fpowf, fsqrt, fsub, F_HUNDRED,
    F_NEG_INF, F_NEG_TEN, F_ONE, F_POINT_7, F_ZERO,
};
use crate::linalg::{rows_view, sum_from};
use crate::mcmc::{
    predict_spec, sample_spec, McmcConfig, McmcSampler, UNIFORM_SEED_TAG,
};
use crate::models::{
    default_fixed_spec, default_omega_diag_spec, n_params_spec, param_names_spec, square_spec,
    CompartmentModel, ModelParameters, ModelType,
};
use crate::rng::entropy_seed;
use crate::solver::{RungeKuttaSolver, SolverError};

verus! {

/// Bits of -2.0.
pub const F_NEG_TWO: u64 = 0xC000000000000000;

/// One fixed effect's estimate with its relative standard error.
#[derive(Debug, Clone)]
pub struct ParameterStatistics {
    pub name: String,
    pub estimate: u64,
    pub rse_percent: u64,
}

/// One cell of the random-effects covariance with its shrinkage.
#[derive(Debug, Clone)]
pub struct OmegaStatistics {
    pub parameter_i: String,
    pub parameter_j: String,
    pub estimate: u64,
    pub shrinkage_percent: Option<u64>,
}

/// Everything a SAEM run reports.
#[derive(Debug, Clone)]
pub struct SaemResults {
    pub fixed_effects: Vec<u64>,
    pub random_effects_variance: Vec<Vec<u64>>,
    pub residual_variance: u64,
    pub log_likelihood_trajectory: Vec<u64>,
    pub parameter_trajectory: Vec<Vec<u64>>,
    pub final_log_likelihood: u64,
    pub objective_function_value: u64,
    pub converged: bool,
    pub n_iterations: usize,
    pub individual_parameters: Vec<(i32, Vec<u64>)>,
    pub parameter_statistics: Vec<ParameterStatistics>,
    pub omega_statistics: Vec<OmegaStatistics>,
    pub parameter_names: Vec<String>,
}

impl SaemResults {
    /// Empty results: zero effects, zero covariance, unit residual variance,
    /// no trajectory.
    pub fn new(n_params: usize, parameter_names: Vec<String>) -> (r: Self)
        ensures
            r.fixed_effects@.len() == n_params,
            forall|i: int| 0 <= i < n_params ==> r.fixed_effects@[i] == F_ZERO,
            r.random_effects_variance@.len() == n_params,
            forall|i: int|
                0 <= i < n_params ==> (#[trigger] r.random_effects_variance@[i])@ == Seq::new(
                    n_params as nat,
                    |j: int| F_ZERO,
                ),
            r.residual_variance == F_ONE,
            r.log_likelihood_trajectory@.len() == 0,
            r.parameter_trajectory@.len() == 0,
            r.final_log_likelihood == F_NEG_INF,
            r.objective_function_value == fp::F_INF,
            r.converged == false,
            r.n_iterations == 0,
            r.individual_parameters@.len() == 0,
            r.parameter_statistics@.len() == 0,
            r.omega_statistics@.len() == 0,
            r.parameter_names == parameter_names,
    {
        let fixed_effects = crate::linalg::zeros(n_params);
        let random_effects_variance = crate::linalg::zero_mat(n_params);
        proof {
            assert forall|i: int| 0 <= i < n_params implies (
            #[trigger] random_effects_variance@[i])@ =~= Seq::new(n_params as nat, |j: int| F_ZERO)
            by {}
        }
        SaemResults {
            fixed_effects,
            random_effects_variance,
            residual_variance: F_ONE,
            log_likelihood_trajectory: Vec::new(),
            parameter_trajectory: Vec::new(),
            final_log_likelihood: F_NEG_INF,
            objective_function_value: fp::F_INF,
            converged: false,
            n_iterations: 0,
            individual_parameters: Vec::new(),
            parameter_statistics: Vec::new(),
            omega_statistics: Vec::new(),
            parameter_names,
        }
    }

    /// A copy of the fixed-effects vector.
    pub fn get_fixed_effects_vector(&self) -> (r: Vec<u64>)
        ensures
            r@ == self.fixed_effects@,
    {
        crate::linalg::copy_vec(&self.fixed_effects)
    }

    /// A copy of the random-effects covariance matrix.
    pub fn get_random_effects_matrix(&self) -> (r: Vec<Vec<u64>>)
        ensures
            r@.len() == self.random_effects_variance@.len(),
            forall|i: int|
                0 <= i < r@.len() ==> #[trigger] r@[i]@ == self.random_effects_variance@[i]@,
    {
        crate::linalg::copy_mat(&self.random_effects_variance)
    }

    /// Replaces the fixed effects with a copy of the vector.
    pub fn set_fixed_effects(&mut self, effects: &Vec<u64>)
        ensures
            *final(self) == (SaemResults { fixed_effects: final(self).fixed_effects, ..*old(self) }),
            final(self).fixed_effects@ == effects@,
    {
        self.fixed_effects = crate::linalg::copy_vec(effects);
    }

    /// Replaces the covariance with a copy of the square matrix.
    pub fn set_random_effects_variance(&mut self, variance: &Vec<Vec<u64>>)
        ensures
            *final(self) == (SaemResults {
                random_effects_variance: final(self).random_effects_variance,
                ..*old(self)
            }),
            final(self).random_effects_variance@.len() == variance@.len(),
            forall|i: int|
                0 <= i < variance@.len() ==> #[trigger] final(self).random_effects_variance@[i]@
                    == variance@[i]@,
    {
        self.random_effects_variance = crate::linalg::copy_mat(variance);
    }
}

/// The whole evolving state of a SAEM run.
pub struct SaemState {
    pub fe: Seq<u64>,
    pub omega: Seq<Seq<u64>>,
    pub resid: u64,
    pub ind: Seq<Seq<u64>>,
    pub sum_theta: Seq<u64>,
    pub sum_sq: Seq<Seq<u64>>,
    pub sum_sigma: u64,
    pub traj: Seq<Seq<u64>>,
    pub ll_traj: Seq<u64>,
    pub converged: bool,
    pub done: bool,
}

/// An individual id as the unsigned word its sign extension yields.
pub open spec fn id_to_u64(id: i32) -> u64 {
    if id >= 0 {
        id as u64
    } else {
        (id + 0x10000000000000000) as u64
    }
}

/// The sign extension of an id, executably.
pub fn id_bits(id: i32) -> (r: u64)
    ensures
        r == id_to_u64(id),
{
    if id >= 0 {
        id as u64
    } else {
        let mag: u64 = (-(id as i64)) as u64;
        u64::MAX - mag + 1
    }
}

/// The sampler seed of one individual in one iteration: the base seed plus
/// the iteration index plus the individual id, wrapping.
pub open spec fn mcmc_seed_spec(base: u64, iteration: u64, id: i32) -> u64 {
    base.wrapping_add(iteration).wrapping_add(id_to_u64(id))
}

/// The SAEM gain: one during burn-in, then `(t - n_burnin + 1)^(-0.7)`.
pub open spec fn gain_spec(iteration: int, n_burnin: int) -> u64 {
    if iteration < n_burnin {
        F_ONE
    } else {
        fdiv(F_ONE, fpowf(f_from_u64((iteration - n_burnin + 1) as u64), F_POINT_7))
    }
}

/// The gain schedule, executably.
pub fn saem_gain(iteration: usize, n_burnin: usize) -> (r: u64)
    requires
        iteration < usize::MAX,
    ensures
        r == gain_spec(iteration as int, n_burnin as int),
{
    if iteration < n_burnin {
        F_ONE
    } else {
        let base: usize = iteration - n_burnin + 1;
        fp::div(F_ONE, fp::powf(fp::from_u64(base as u64), F_POINT_7))
    }
}

/// Before burn-in ends, the gain is exactly one: the stochastic
/// approximation takes each new mean wholesale.
pub proof fn lemma_gain_is_one_in_burnin(iteration: int, n_burnin: int)
    requires
        iteration < n_burnin,
    ensures
        gain_spec(iteration, n_burnin) == F_ONE,
{
}

/// The running sum of one column over the individual draws.
pub open spec fn col_sum_from(ind: Seq<Seq<u64>>, i: int, j: int, acc: u64) -> u64
    decreases ind.len() - j,
{
    if j < 0 || j >= ind.len() {
        acc
    } else {
        col_sum_from(ind, i, j + 1, fadd(acc, ind[j][i]))
    }
}

/// The mean of the individual draws, component by component.
pub open spec fn mean_params_spec(ind: Seq<Seq<u64>>, n_params: int, n_f: u64) -> Seq<u64> {
    Seq::new(n_params as nat, |i: int| fdiv(col_sum_from(ind, i, 0, F_ZERO), n_f))
}

/// The running sum of one centered outer-product cell over the draws.
pub open spec fn outer_sum_from(
    ind: Seq<Seq<u64>>,
    fe: Seq<u64>,
    i: int,
    j: int,
    k: int,
    acc: u64,
) -> u64
    decreases ind.len() - k,
{
    if k < 0 || k >= ind.len() {
        acc
    } else {
        outer_sum_from(
            ind,
            fe,
            i,
            j,
            k + 1,
            fadd(acc, fmul(fsub(ind[k][i], fe[i]), fsub(ind[k][j], fe[j]))),
        )
    }
}

/// The running sum of squared residuals over the observation/prediction
/// pairs of one individual.
pub open spec fn resid_pairs_from(
    obs: Seq<crate::data::Observation>,
    preds: Seq<u64>,
    i: int,
    acc: u64,
) -> u64
    decreases obs.len() - i,
{
    if i < 0 || i >= obs.len() || i >= preds.len() {
        acc
    } else {
        let d = fsub(obs[i].value, preds[i]);
        resid_pairs_from(obs, preds, i + 1, fadd(acc, fmul(d, d)))
    }
}

/// The residual sum and pair count over the individuals from `j` on;
/// individuals whose prediction fails are skipped.
pub open spec fn resid_phase_from(
    mt: ModelType,
    inds: Seq<Individual>,
    ind_params: Seq<Seq<u64>>,
    j: int,
    racc: u64,
    count: int,
) -> (u64, int)
    decreases inds.len() - j,
{
    if j < 0 || j >= inds.len() {
        (racc, count)
    } else {
        match predict_spec(mt, ind_params[j], inds[j], F_ONE) {
            Ok(preds) => {
                let obs = inds[j].observations@;
                let pairs = if obs.len() < preds.len() {
                    obs.len() as int
                } else {
                    preds.len() as int
                };
                resid_phase_from(
                    mt,
                    inds,
                    ind_params,
                    j + 1,
                    resid_pairs_from(obs, preds, 0, racc),
                    count + pairs,
                )
            },
            Err(_) => resid_phase_from(mt, inds, ind_params, j + 1, racc, count),
        }
    }
}

/// What the M-step produces from the draws under gain `g`.
pub struct MStepOut {
    pub fe: Seq<u64>,
    pub omega: Seq<Seq<u64>>,
    pub resid: u64,
    pub sum_theta: Seq<u64>,
    pub sum_sq: Seq<Seq<u64>>,
    pub sum_sigma: u64,
}

/// The M-step: blend the draw mean into the running fixed effects (clamped
/// at -10), blend the centered outer products into the running covariance,
/// and blend the empirical residual variance in when any individual's
/// prediction succeeded.
pub open spec fn mstep_spec(
    mt: ModelType,
    inds: Seq<Individual>,
    ind_params: Seq<Seq<u64>>,
    n_params: int,
    g: u64,
    sum_theta: Seq<u64>,
    sum_sq: Seq<Seq<u64>>,
    sum_sigma: u64,
    resid: u64,
) -> MStepOut {
    let n_f = f_from_u64(inds.len() as u64);
    let mean = mean_params_spec(ind_params, n_params, n_f);
    let sum_theta2 = Seq::new(
        n_params as nat,
        |i: int| fmax(fadd(fmul(fsub(F_ONE, g), sum_theta[i]), fmul(g, mean[i])), F_NEG_TEN),
    );
    let fe2 = sum_theta2;
    let sum_sq2 = Seq::new(
        n_params as nat,
        |i: int| Seq::new(
            n_params as nat,
            |j: int| fadd(
                fmul(fsub(F_ONE, g), sum_sq[i][j]),
                fmul(g, fdiv(outer_sum_from(ind_params, fe2, i, j, 0, F_ZERO), n_f)),
            ),
        ),
    );
    let rp = resid_phase_from(mt, inds, ind_params, 0, F_ZERO, 0);
    let sum_sigma2 = if rp.1 > 0 {
        fadd(fmul(fsub(F_ONE, g), sum_sigma), fmul(g, fdiv(rp.0, f_from_u64(rp.1 as u64))))
    } else {
        sum_sigma
    };
    let resid2 = if rp.1 > 0 {
        sum_sigma2
    } else {
        resid
    };
    MStepOut { fe: fe2, omega: sum_sq2, resid: resid2, sum_theta: sum_theta2, sum_sq: sum_sq2, sum_sigma: sum_sigma2 }
}

/// The running sum of squared deviations from `mean` over a window.
pub open spec fn sq_dev_sum_from(s: Seq<u64>, mean: u64, i: int, acc: u64) -> u64
    decreases s.len() - i,
{
    if i < 0 || i >= s.len() {
        acc
    } else {
        let d = fsub(s[i], mean);
        sq_dev_sum_from(s, mean, i + 1, fadd(acc, fmul(d, d)))
    }
}

/// The convergence test: over the trailing window of fifty log-likelihood
/// values, the coefficient of variation must fall below the tolerance; a
/// mean too close to zero defers the decision.
pub open spec fn convergence_spec(ll_traj: Seq<u64>, tolerance: u64) -> bool {
    if ll_traj.len() < 50 {
        false
    } else {
        let recent = ll_traj.subrange(ll_traj.len() - 50, ll_traj.len() as int);
        let mean = fdiv(sum_from(recent, 0, F_ZERO), f_from_u64(50));
        if flt(f_abs_bits(mean), fp::F_1E_NEG_9) {
            false
        } else {
            let variance = fdiv(sq_dev_sum_from(recent, mean, 0, F_ZERO), f_from_u64(49));
            flt(fdiv(fsqrt(variance), f_abs_bits(mean)), tolerance)
        }
    }
}

/// The E-step over the individuals from `j` on: one sampler per individual,
/// seeded from the base seed, the iteration and the individual's id, the
/// per-individual log-likelihoods summed in order.
pub open spec fn estep_from(
    mt: ModelType,
    inds: Seq<Individual>,
    cfg: EstimationConfig,
    base: u64,
    iteration: u64,
    fe: Seq<u64>,
    omega: Seq<Seq<u64>>,
    ind_params: Seq<Seq<u64>>,
    j: int,
    ll_acc: u64,
) -> Result<(Seq<Seq<u64>>, u64), SolverError>
    decreases inds.len() - j,
{
    if j < 0 || j >= inds.len() {
        Ok((ind_params, ll_acc))
    } else {
        let seed = mcmc_seed_spec(base, iteration, inds[j].id);
        match sample_spec(
            mt,
            inds[j],
            fe,
            omega,
            F_ONE,
            cfg.step_size,
            seed,
            seed ^ UNIFORM_SEED_TAG,
            ind_params[j],
            cfg.mcmc_samples_per_iteration as nat,
        ) {
            Ok(p) => estep_from(
                mt,
                inds,
                cfg,
                base,
                iteration,
                fe,
                omega,
                ind_params.update(j, p.0),
                j + 1,
                fadd(ll_acc, p.1),
            ),
            Err(e) => Err(e),
        }
    }
}

/// One whole SAEM iteration: E-step, M-step, trajectory bookkeeping, and the
/// periodic convergence check past burn-in.
pub open spec fn saem_step_spec(
    mt: ModelType,
    inds: Seq<Individual>,
    cfg: EstimationConfig,
    base: u64,
    st: SaemState,
    iteration: int,
) -> Result<SaemState, SolverError> {
    let g = gain_spec(iteration, cfg.n_burnin as int);
    match estep_from(
        mt,
        inds,
        cfg,
        base,
        iteration as u64,
        st.fe,
        st.omega,
        st.ind,
        0,
        F_ZERO,
    ) {
        Err(e) => Err(e),
        Ok(ep) => {
            let m = mstep_spec(
                mt,
                inds,
                ep.0,
                n_params_spec(mt) as int,
                g,
                st.sum_theta,
                st.sum_sq,
                st.sum_sigma,
                st.resid,
            );
            let traj2 = st.traj.push(m.fe);
            let ll_traj2 = st.ll_traj.push(ep.1);
            let hit = iteration > cfg.n_burnin && iteration % 50 == 0 && convergence_spec(
                ll_traj2,
                cfg.convergence_tolerance,
            );
            Ok(
                SaemState {
                    fe: m.fe,
                    omega: m.omega,
                    resid: m.resid,
                    ind: ep.0,
                    sum_theta: m.sum_theta,
                    sum_sq: m.sum_sq,
                    sum_sigma: m.sum_sigma,
                    traj: traj2,
                    ll_traj: ll_traj2,
                    converged: if hit {
                        true
                    } else {
                        st.converged
                    },
                    done: if hit {
                        true
                    } else {
                        st.done
                    },
                },
            )
        },
    }
}

/// The starting state of a run: the model's default parameters, every
/// individual at the default fixed effects, zero running sums.
pub open spec fn saem_init_spec(mt: ModelType, inds: Seq<Individual>) -> SaemState {
    let n = n_params_spec(mt) as int;
    SaemState {
        fe: default_fixed_spec(mt),
        omega: Seq::new(
            n as nat,
            |i: int| Seq::new(
                n as nat,
                |j: int| if i == j {
                    default_omega_diag_spec(mt)[i]
                } else {
                    F_ZERO
                },
            ),
        ),
        resid: fp::F_POINT_01,
        ind: Seq::new(inds.len(), |j: int| default_fixed_spec(mt)),
        sum_theta: Seq::new(n as nat, |i: int| F_ZERO),
        sum_sq: Seq::new(n as nat, |i: int| Seq::new(n as nat, |j: int| F_ZERO)),
        sum_sigma: F_ZERO,
        traj: Seq::empty(),
        ll_traj: Seq::empty(),
        converged: false,
        done: false,
    }
}

/// The state after `k` iterations: iterations freeze once the run converged,
/// and an integration fault anywhere stops the run with that fault.
pub open spec fn saem_iter_spec(
    mt: ModelType,
    inds: Seq<Individual>,
    cfg: EstimationConfig,
    base: u64,
    k: nat,
) -> Result<SaemState, SolverError>
    decreases k,
{
    if k == 0 {
        Ok(saem_init_spec(mt, inds))
    } else {
        match saem_iter_spec(mt, inds, cfg, base, (k - 1) as nat) {
            Err(e) => Err(e),
            Ok(st) => {
                if st.done {
                    Ok(st)
                } else {
                    saem_step_spec(mt, inds, cfg, base, st, k - 1)
                }
            },
        }
    }
}

/// Once a run is done, later iterations change nothing.
pub proof fn lemma_saem_freeze(
    mt: ModelType,
    inds: Seq<Individual>,
    cfg: EstimationConfig,
    base: u64,
    k: nat,
    n: nat,
)
    requires
        k <= n,
        saem_iter_spec(mt, inds, cfg, base, k) matches Ok(st) && st.done,
    ensures
        saem_iter_spec(mt, inds, cfg, base, n) == saem_iter_spec(mt, inds, cfg, base, k),
    decreases n,
{
    if n > k {
        lemma_saem_freeze(mt, inds, cfg, base, k, (n - 1) as nat);
    }
}


/// The count accumulated by the residual phase never shrinks.
pub proof fn lemma_resid_count_monotone(
    mt: ModelType,
    inds: Seq<Individual>,
    ind_params: Seq<Seq<u64>>,
    j: int,
    racc: u64,
    count: int,
)
    ensures
        resid_phase_from(mt, inds, ind_params, j, racc, count).1 >= count,
    decreases inds.len() - j,
{
    if 0 <= j < inds.len() {
        match predict_spec(mt, ind_params[j], inds[j], F_ONE) {
            Ok(preds) => {
                let obs = inds[j].observations@;
                let pairs = if obs.len() < preds.len() {
                    obs.len() as int
                } else {
                    preds.len() as int
                };
                lemma_resid_count_monotone(
                    mt,
                    inds,
                    ind_params,
                    j + 1,
                    resid_pairs_from(obs, preds, 0, racc),
                    count + pairs,
                );
            },
            Err(_) => {
                lemma_resid_count_monotone(mt, inds, ind_params, j + 1, racc, count);
            },
        }
    }
}

/// The residual phase counts at most one pair per observation.
pub proof fn lemma_resid_count_bound(
    mt: ModelType,
    inds: Seq<Individual>,
    ind_params: Seq<Seq<u64>>,
    j: int,
    racc: u64,
    count: int,
)
    ensures
        resid_phase_from(mt, inds, ind_params, j, racc, count).1 <= count
            + crate::data::obs_count_from(inds, j),
    decreases inds.len() - j,
{
    crate::data::lemma_obs_count_nonneg(inds, j);
    if 0 <= j < inds.len() {
        crate::data::lemma_obs_count_nonneg(inds, j + 1);
        match predict_spec(mt, ind_params[j], inds[j], F_ONE) {
            Ok(preds) => {
                let obs = inds[j].observations@;
                let pairs = if obs.len() < preds.len() {
                    obs.len() as int
                } else {
                    preds.len() as int
                };
                lemma_resid_count_bound(
                    mt,
                    inds,
                    ind_params,
                    j + 1,
                    resid_pairs_from(obs, preds, 0, racc),
                    count + pairs,
                );
            },
            Err(_) => {
                lemma_resid_count_bound(mt, inds, ind_params, j + 1, racc, count);
            },
        }
    }
}

/// An iteration that fails stops every later iteration with the same fault.
pub proof fn lemma_saem_err_freeze(
    mt: ModelType,
    inds: Seq<Individual>,
    cfg: EstimationConfig,
    base: u64,
    k: nat,
    n: nat,
    e: SolverError,
)
    requires
        k <= n,
        saem_iter_spec(mt, inds, cfg, base, k) == Err::<SaemState, SolverError>(e),
    ensures
        saem_iter_spec(mt, inds, cfg, base, n) == Err::<SaemState, SolverError>(e),
    decreases n,
{
    if n > k {
        lemma_saem_err_freeze(mt, inds, cfg, base, k, (n - 1) as nat, e);
    }
}


/// Row-major indexing is injective on in-range cells.
pub proof fn lemma_rowmajor_unique(np: int, t: int, u: int, i: int, j: int)
    requires
        0 <= t,
        0 <= u < np,
        0 <= i,
        0 <= j < np,
        t * np + u == i * np + j,
    ensures
        t == i && u == j,
{
    assert(t == i && u == j) by (nonlinear_arith)
        requires
            0 <= t,
            0 <= u < np,
            0 <= i,
            0 <= j < np,
            t * np + u == i * np + j,
    ;
}

/// The window length the trajectory statistics use: the last hundred
/// iterations, or all of them.
pub open spec fn n_recent_spec(len: int) -> int {
    if len < 100 {
        len
    } else {
        100
    }
}

/// The `v`-th most recent value of one trajectory column.
pub open spec fn stat_val(traj: Seq<Seq<u64>>, idx: int, v: int) -> u64 {
    traj[traj.len() - 1 - v][idx]
}

/// The running sum of the `cnt` most recent values of a column.
pub open spec fn stat_sum_from(traj: Seq<Seq<u64>>, idx: int, cnt: int, v: int, acc: u64) -> u64
    decreases cnt - v,
{
    if v < 0 || v >= cnt {
        acc
    } else {
        stat_sum_from(traj, idx, cnt, v + 1, fadd(acc, stat_val(traj, idx, v)))
    }
}

/// The running sum of squared deviations of the recent column values.
pub open spec fn stat_sqdev_from(
    traj: Seq<Seq<u64>>,
    idx: int,
    mean: u64,
    cnt: int,
    v: int,
    acc: u64,
) -> u64
    decreases cnt - v,
{
    if v < 0 || v >= cnt {
        acc
    } else {
        let d = fsub(stat_val(traj, idx, v), mean);
        stat_sqdev_from(traj, idx, mean, cnt, v + 1, fadd(acc, fmul(d, d)))
    }
}

/// The relative standard error of one parameter over the recent trajectory.
pub open spec fn rse_spec(traj: Seq<Seq<u64>>, idx: int) -> u64 {
    let cnt = n_recent_spec(traj.len() as int);
    let mean = fdiv(stat_sum_from(traj, idx, cnt, 0, F_ZERO), f_from_u64(cnt as u64));
    let variance = fdiv(
        stat_sqdev_from(traj, idx, mean, cnt, 0, F_ZERO),
        f_from_u64((cnt - 1) as u64),
    );
    let std_error = fdiv(fsqrt(variance), fsqrt(f_from_u64(cnt as u64)));
    if flt(fp::F_1E_NEG_10, f_abs_bits(mean)) {
        fmul(fdiv(std_error, f_abs_bits(mean)), F_HUNDRED)
    } else {
        F_ZERO
    }
}

/// What the per-parameter statistics must hold: nothing for runs too short
/// to summarize, else one entry per parameter with its estimate and relative
/// standard error.
pub open spec fn param_stats_post(
    traj: Seq<Seq<u64>>,
    fe: Seq<u64>,
    names: Seq<String>,
    stats: Seq<ParameterStatistics>,
) -> bool {
    if n_recent_spec(traj.len() as int) < 10 {
        stats.len() == 0
    } else {
        &&& stats.len() == names.len()
        &&& forall|i: int|
            0 <= i < names.len() ==> (#[trigger] stats[i]).name@ == names[i]@ && stats[i].estimate
                == fe[i] && stats[i].rse_percent == rse_spec(traj, i)
    }
}

/// The running sum of one column over stored individual parameters.
pub open spec fn ip_col_sum_from(ip: Seq<(i32, Vec<u64>)>, idx: int, j: int, acc: u64) -> u64
    decreases ip.len() - j,
{
    if j < 0 || j >= ip.len() {
        acc
    } else {
        ip_col_sum_from(ip, idx, j + 1, fadd(acc, ip[j].1@[idx]))
    }
}

/// The running sum of squared deviations of one column of stored individual
/// parameters.
pub open spec fn ip_col_sqdev_from(
    ip: Seq<(i32, Vec<u64>)>,
    idx: int,
    mean: u64,
    j: int,
    acc: u64,
) -> u64
    decreases ip.len() - j,
{
    if j < 0 || j >= ip.len() {
        acc
    } else {
        let d = fsub(ip[j].1@[idx], mean);
        ip_col_sqdev_from(ip, idx, mean, j + 1, fadd(acc, fmul(d, d)))
    }
}

/// The empirical variance of one parameter across individuals; zero when
/// there are not at least two individuals.
pub open spec fn emp_var_spec(ip: Seq<(i32, Vec<u64>)>, idx: int, n_inds: int) -> u64 {
    if n_inds > 1 {
        let n_f = f_from_u64(n_inds as u64);
        let mean = fdiv(ip_col_sum_from(ip, idx, 0, F_ZERO), n_f);
        fdiv(ip_col_sqdev_from(ip, idx, mean, 0, F_ZERO), fsub(n_f, F_ONE))
    } else {
        F_ZERO
    }
}

/// The shrinkage of one diagonal covariance entry, clamped to `[0, 100]`.
pub open spec fn shrink_spec(emp: u64, omega_ij: u64) -> u64 {
    fmin(fmax(fmul(fsub(F_ONE, fdiv(emp, f_abs_bits(omega_ij))), F_HUNDRED), F_ZERO), F_HUNDRED)
}

/// What the covariance statistics must hold: one row-major entry per cell,
/// with shrinkage only on diagonal cells whose empirical variance is large
/// enough to trust.
pub open spec fn omega_stats_post(
    omega: Seq<Vec<u64>>,
    names: Seq<String>,
    ip: Seq<(i32, Vec<u64>)>,
    n_inds: int,
    stats: Seq<OmegaStatistics>,
) -> bool {
    let np = names.len() as int;
    &&& stats.len() == np * np
    &&& forall|i: int, j: int|
        0 <= i < np && 0 <= j < np ==> {
            let e = #[trigger] stats[i * np + j];
            &&& e.parameter_i@ == names[i]@
            &&& e.parameter_j@ == names[j]@
            &&& e.estimate == omega[i]@[j]
            &&& e.shrinkage_percent == (if i == j && flt(
                fp::F_1E_NEG_10,
                emp_var_spec(ip, i, n_inds),
            ) {
                Some(shrink_spec(emp_var_spec(ip, i, n_inds), omega[i]@[j]))
            } else {
                Option::<u64>::None
            })
        }
}

/// The SAEM estimator: a model, a configuration, and the fixed-step solver.
pub struct SaemEstimator {
    pub model: CompartmentModel,
    pub config: EstimationConfig,
    pub solver: RungeKuttaSolver,
}

impl SaemEstimator {
    /// An estimator over this model and configuration.
    pub fn new(model: CompartmentModel, config: EstimationConfig) -> (r: Self)
        ensures
            r.model == model,
            r.config == config,
    {
        SaemEstimator { model, config, solver: RungeKuttaSolver::new() }
    }

    /// The model the estimator fits.
    pub fn model(&self) -> (r: &CompartmentModel)
        ensures
            r == self.model,
    {
        &self.model
    }

    /// The model predictions at every observation of an individual under
    /// these parameters.
    fn predict_individual(&self, individual: &Individual, params: &ModelParameters) -> (r: Result<
        Vec<u64>,
        SolverError,
    >)
        requires
            params.fixed_effects@.len() >= n_params_spec(self.model.model_type),
        ensures
            crate::mcmc::vec_view(r) == predict_spec(
                self.model.model_type,
                params.fixed_effects@,
                *individual,
                F_ONE,
            ),
    {
        crate::mcmc::predict_individual(&self.model, &self.solver, individual, params)
    }

    /// The M-step: blends the individual draws into the population fixed
    /// effects, covariance and residual variance under the given gain.
    #[verifier::rlimit(100)]
    fn update_population_parameters(
        &self,
        individual_params: &Vec<Vec<u64>>,
        current_params: &mut ModelParameters,
        sa_sum_theta: &mut Vec<u64>,
        sa_sum_theta_sq: &mut Vec<Vec<u64>>,
        sa_sum_sigma: &mut u64,
        gamma: u64,
        dataset: &Dataset,
    )
        requires
            individual_params@.len() == dataset.individuals@.len(),
            forall|j: int|
                0 <= j < individual_params@.len() ==> (#[trigger] individual_params@[j])@.len()
                    == n_params_spec(self.model.model_type),
            old(sa_sum_theta)@.len() == n_params_spec(self.model.model_type),
            square_spec(old(sa_sum_theta_sq)@, n_params_spec(self.model.model_type) as int),
            crate::data::obs_count_from(dataset.individuals@, 0) <= usize::MAX,
        ensures
            ({
                let m = mstep_spec(
                    self.model.model_type,
                    dataset.individuals@,
                    rows_view(individual_params@),
                    n_params_spec(self.model.model_type) as int,
                    gamma,
                    old(sa_sum_theta)@,
                    rows_view(old(sa_sum_theta_sq)@),
                    *old(sa_sum_sigma),
                    old(current_params).residual_variance,
                );
                &&& final(current_params).fixed_effects@ == m.fe
                &&& rows_view(final(current_params).random_effects_variance@) == m.omega
                &&& final(current_params).residual_variance == m.resid
                &&& final(current_params).parameter_names == old(current_params).parameter_names
                &&& final(sa_sum_theta)@ == m.sum_theta
                &&& rows_view(final(sa_sum_theta_sq)@) == m.sum_sq
                &&& *final(sa_sum_sigma) == m.sum_sigma
            }),
    {
        let ghost mt = self.model.model_type;
        let ghost inds = dataset.individuals@;
        let ghost ip = rows_view(individual_params@);
        let n_params = sa_sum_theta.len();
        let n_individuals = dataset.individuals.len();
        let n_f = fp::from_u64(n_individuals as u64);

        // Mean of the individual draws, component by component.
        let mut mean: Vec<u64> = crate::linalg::zeros(n_params);
        for j in 0..n_individuals
            invariant
                n_individuals == inds.len(),
                individual_params@.len() == inds.len(),
                ip == rows_view(individual_params@),
                forall|t: int|
                    0 <= t < individual_params@.len() ==> (
                    #[trigger] individual_params@[t])@.len() == n_params,
                mean@.len() == n_params,
                forall|i: int|
                    0 <= i < n_params ==> col_sum_from(ip, i, 0, F_ZERO) == col_sum_from(
                        ip,
                        i,
                        j as int,
                        #[trigger] mean@[i],
                    ),
        {
            for i in 0..n_params
                invariant
                    n_individuals == inds.len(),
                    individual_params@.len() == inds.len(),
                    j < n_individuals,
                    ip == rows_view(individual_params@),
                    forall|t: int|
                        0 <= t < individual_params@.len() ==> (
                        #[trigger] individual_params@[t])@.len() == n_params,
                    mean@.len() == n_params,
                    forall|t: int|
                        i <= t < n_params ==> col_sum_from(ip, t, 0, F_ZERO) == col_sum_from(
                            ip,
                            t,
                            j as int,
                            #[trigger] mean@[t],
                        ),
                    forall|t: int|
                        0 <= t < i ==> col_sum_from(ip, t, 0, F_ZERO) == col_sum_from(
                            ip,
                            t,
                            j + 1,
                            #[trigger] mean@[t],
                        ),
            {
                let updated = fp::add(mean[i], individual_params[j][i]);
                mean.set(i, updated);
            }
        }
        for i in 0..n_params
            invariant
                mean@.len() == n_params,
                forall|t: int|
                    i <= t < n_params ==> #[trigger] mean@[t] == col_sum_from(ip, t, 0, F_ZERO),
                forall|t: int|
                    0 <= t < i ==> #[trigger] mean@[t] == fdiv(col_sum_from(ip, t, 0, F_ZERO), n_f),
                n_f == f_from_u64(inds.len() as u64),
                n_individuals == inds.len(),
        {
            let updated = fp::div(mean[i], n_f);
            mean.set(i, updated);
        }
        proof {
            assert(mean@ =~= mean_params_spec(ip, n_params as int, n_f));
        }

        // Blend the mean into the running fixed effects, clamped at -10.
        let ghost sum_theta0 = sa_sum_theta@;
        for i in 0..n_params
            invariant
                sa_sum_theta@.len() == n_params,
                mean@.len() == n_params,
                mean@ == mean_params_spec(ip, n_params as int, n_f),
                forall|t: int| i <= t < n_params ==> sa_sum_theta@[t] == sum_theta0[t],
                forall|t: int|
                    0 <= t < i ==> #[trigger] sa_sum_theta@[t] == fmax(
                        fadd(fmul(fsub(F_ONE, gamma), sum_theta0[t]), fmul(gamma, mean@[t])),
                        F_NEG_TEN,
                    ),
        {
            let blended = fp::add(
                fp::mul(fp::sub(F_ONE, gamma), sa_sum_theta[i]),
                fp::mul(gamma, mean[i]),
            );
            sa_sum_theta.set(i, fp::max(blended, F_NEG_TEN));
        }
        current_params.fixed_effects = crate::linalg::copy_vec(sa_sum_theta);
        let ghost fe2 = current_params.fixed_effects@;

        // Blend the centered outer products into the running covariance.
        let ghost sum_sq0 = rows_view(sa_sum_theta_sq@);
        let mut new_sq: Vec<Vec<u64>> = Vec::new();
        for i in 0..n_params
            invariant
                n_individuals == inds.len(),
                individual_params@.len() == inds.len(),
                ip == rows_view(individual_params@),
                forall|t: int|
                    0 <= t < individual_params@.len() ==> (
                    #[trigger] individual_params@[t])@.len() == n_params,
                current_params.fixed_effects@ == fe2,
                fe2.len() == n_params,
                sa_sum_theta_sq@.len() == n_params,
                forall|t: int|
                    0 <= t < n_params ==> (#[trigger] sa_sum_theta_sq@[t])@.len() == n_params,
                sum_sq0 == rows_view(sa_sum_theta_sq@),
                n_f == f_from_u64(inds.len() as u64),
                new_sq@.len() == i,
                forall|t: int| 0 <= t < i ==> (#[trigger] new_sq@[t])@.len() == n_params,
                forall|t: int, u: int|
                    0 <= t < i && 0 <= u < n_params ==> #[trigger] new_sq@[t]@[u] == fadd(
                        fmul(fsub(F_ONE, gamma), sum_sq0[t][u]),
                        fmul(gamma, fdiv(outer_sum_from(ip, fe2, t, u, 0, F_ZERO), n_f)),
                    ),
        {
            let mut row: Vec<u64> = Vec::new();
            for j in 0..n_params
                invariant
                    n_individuals == inds.len(),
                    individual_params@.len() == inds.len(),
                    i < n_params,
                    ip == rows_view(individual_params@),
                    forall|t: int|
                        0 <= t < individual_params@.len() ==> (
                        #[trigger] individual_params@[t])@.len() == n_params,
                    current_params.fixed_effects@ == fe2,
                    fe2.len() == n_params,
                    sa_sum_theta_sq@.len() == n_params,
                    forall|t: int|
                        0 <= t < n_params ==> (#[trigger] sa_sum_theta_sq@[t])@.len() == n_params,
                    sum_sq0 == rows_view(sa_sum_theta_sq@),
                    n_f == f_from_u64(inds.len() as u64),
                    row@.len() == j,
                    forall|u: int|
                        0 <= u < j ==> #[trigger] row@[u] == fadd(
                            fmul(fsub(F_ONE, gamma), sum_sq0[i as int][u]),
                            fmul(gamma, fdiv(outer_sum_from(ip, fe2, i as int, u, 0, F_ZERO), n_f)),
                        ),
            {
                let mut cell = F_ZERO;
                for k in 0..n_individuals
                    invariant
                        n_individuals == inds.len(),
                        individual_params@.len() == inds.len(),
                        i < n_params,
                        j < n_params,
                        ip == rows_view(individual_params@),
                        forall|t: int|
                            0 <= t < individual_params@.len() ==> (
                            #[trigger] individual_params@[t])@.len() == n_params,
                        current_params.fixed_effects@ == fe2,
                        fe2.len() == n_params,
                        outer_sum_from(ip, fe2, i as int, j as int, 0, F_ZERO) == outer_sum_from(
                            ip,
                            fe2,
                            i as int,
                            j as int,
                            k as int,
                            cell,
                        ),
                {
                    let ci = fp::sub(individual_params[k][i], current_params.fixed_effects[i]);
                    let cj = fp::sub(individual_params[k][j], current_params.fixed_effects[j]);
                    cell = fp::add(cell, fp::mul(ci, cj));
                }
                let mean_outer = fp::div(cell, n_f);
                row.push(
                    fp::add(
                        fp::mul(fp::sub(F_ONE, gamma), sa_sum_theta_sq[i][j]),
                        fp::mul(gamma, mean_outer),
                    ),
                );
            }
            new_sq.push(row);
        }
        *sa_sum_theta_sq = new_sq;
        current_params.random_effects_variance = crate::linalg::copy_mat(sa_sum_theta_sq);

        // Residual variance: blend the empirical mean squared residual in,
        // skipping individuals whose prediction fails.
        let mut residual_sum = F_ZERO;
        let mut total_observations: usize = 0;
        for j in 0..n_individuals
            invariant
                n_individuals == inds.len(),
                individual_params@.len() == inds.len(),
                ip == rows_view(individual_params@),
                forall|t: int|
                    0 <= t < individual_params@.len() ==> (
                    #[trigger] individual_params@[t])@.len() == n_params,
                n_params == n_params_spec(self.model.model_type),
                mt == self.model.model_type,
                inds == dataset.individuals@,
                current_params.fixed_effects@ == fe2,
                fe2.len() == n_params,
                crate::data::obs_count_from(inds, 0) <= usize::MAX,
                resid_phase_from(mt, inds, ip, 0, F_ZERO, 0) == resid_phase_from(
                    mt,
                    inds,
                    ip,
                    j as int,
                    residual_sum,
                    total_observations as int,
                ),
        {
            let individual = &dataset.individuals[j];
            let mut temp_params = crate::models::ModelParameters {
                fixed_effects: crate::linalg::copy_vec(&individual_params[j]),
                random_effects_variance: crate::linalg::copy_mat(
                    &current_params.random_effects_variance,
                ),
                residual_variance: current_params.residual_variance,
                parameter_names: Vec::new(),
            };
            let res = self.predict_individual(individual, &temp_params);
            match res {
                Ok(predicted) => {
                    let n_obs = individual.observations.len();
                    let n_pred = predicted.len();
                    let pairs = if n_obs < n_pred {
                        n_obs
                    } else {
                        n_pred
                    };
                    let ghost racc0 = residual_sum;
                    let mut k: usize = 0;
                    while k < pairs
                        invariant
                            pairs <= individual.observations@.len(),
                            pairs <= predicted@.len(),
                            0 <= k <= pairs,
                            pairs == if individual.observations@.len() < predicted@.len() {
                                individual.observations@.len()
                            } else {
                                predicted@.len()
                            },
                            resid_pairs_from(
                                individual.observations@,
                                predicted@,
                                0,
                                racc0,
                            ) == resid_pairs_from(
                                individual.observations@,
                                predicted@,
                                k as int,
                                residual_sum,
                            ),
                        decreases pairs - k,
                    {
                        let d = fp::sub(individual.observations[k].value, predicted[k]);
                        residual_sum = fp::add(residual_sum, fp::mul(d, d));
                        k = k + 1;
                    }
                    proof {
                        lemma_resid_count_monotone(
                            mt,
                            inds,
                            ip,
                            j + 1,
                            resid_pairs_from(individual.observations@, predicted@, 0, racc0),
                            total_observations + pairs,
                        );
                        lemma_resid_count_bound(mt, inds, ip, 0, F_ZERO, 0);
                        crate::data::lemma_obs_count_nonneg(inds, 0);
                    }
                    total_observations = total_observations + pairs;
                },
                Err(_) => {},
            }
        }

        if total_observations > 0 {
            let empirical = fp::div(residual_sum, fp::from_u64(total_observations as u64));
            *sa_sum_sigma = fp::add(
                fp::mul(fp::sub(F_ONE, gamma), *sa_sum_sigma),
                fp::mul(gamma, empirical),
            );
            current_params.residual_variance = *sa_sum_sigma;
        }
        proof {
            let m = mstep_spec(
                mt,
                inds,
                ip,
                n_params as int,
                gamma,
                sum_theta0,
                sum_sq0,
                *old(sa_sum_sigma),
                old(current_params).residual_variance,
            );
            assert(sa_sum_theta@ =~= m.sum_theta);
            assert(rows_view(sa_sum_theta_sq@) =~~= m.sum_sq);
            assert(rows_view(current_params.random_effects_variance@) =~~= m.omega);
        }
    }

    /// The trailing-window convergence test on a log-likelihood trajectory.
    pub fn check_convergence(&self, results: &SaemResults) -> (r: bool)
        ensures
            r == convergence_spec(
                results.log_likelihood_trajectory@,
                self.config.convergence_tolerance,
            ),
    {
        convergence_check(&results.log_likelihood_trajectory, self.config.convergence_tolerance)
    }
}

/// The trailing-window convergence test: the coefficient of variation of the
/// last fifty log-likelihood values must fall below the tolerance.
pub fn convergence_check(ll_traj: &Vec<u64>, tolerance: u64) -> (r: bool)
    ensures
        r == convergence_spec(ll_traj@, tolerance),
{
    let len = ll_traj.len();
    if len < 50 {
        return false;
    }
    let start = len - 50;
    let ghost recent = ll_traj@.subrange(len - 50, len as int);
    let mut acc = F_ZERO;
    for i in 0..50usize
        invariant
            len == ll_traj@.len(),
            len >= 50,
            start == len - 50,
            recent == ll_traj@.subrange(len - 50, len as int),
            sum_from(recent, 0, F_ZERO) == sum_from(recent, i as int, acc),
    {
        acc = fp::add(acc, ll_traj[start + i]);
    }
    let mean = fp::div(acc, fp::from_u64(50));
    if fp::lt(fp::abs(mean), fp::F_1E_NEG_9) {
        return false;
    }
    let mut acc2 = F_ZERO;
    for i in 0..50usize
        invariant
            len == ll_traj@.len(),
            len >= 50,
            start == len - 50,
            recent == ll_traj@.subrange(len - 50, len as int),
            sq_dev_sum_from(recent, mean, 0, F_ZERO) == sq_dev_sum_from(
                recent,
                mean,
                i as int,
                acc2,
            ),
    {
        let d = fp::sub(ll_traj[start + i], mean);
        acc2 = fp::add(acc2, fp::mul(d, d));
    }
    let variance = fp::div(acc2, fp::from_u64(49));
    fp::lt(fp::div(fp::sqrt(variance), fp::abs(mean)), tolerance)
}


impl SaemEstimator {
    /// Per-parameter estimates with relative standard errors over the recent
    /// trajectory; runs with fewer than ten stored iterations report none.
    fn calculate_parameter_statistics(&self, results: &mut SaemResults)
        requires
            old(results).parameter_statistics@.len() == 0,
            old(results).fixed_effects@.len() == old(results).parameter_names@.len(),
            forall|t: int|
                0 <= t < old(results).parameter_trajectory@.len() ==> (
                #[trigger] old(results).parameter_trajectory@[t])@.len() == old(
                    results,
                ).parameter_names@.len(),
        ensures
            *final(results) == (SaemResults {
                parameter_statistics: final(results).parameter_statistics,
                ..*old(results)
            }),
            param_stats_post(
                rows_view(old(results).parameter_trajectory@),
                old(results).fixed_effects@,
                old(results).parameter_names@,
                final(results).parameter_statistics@,
            ),
    {
        let ghost traj = rows_view(results.parameter_trajectory@);
        let traj_len = results.parameter_trajectory.len();
        let n_recent: usize = if traj_len < 100 {
            traj_len
        } else {
            100
        };
        if n_recent < 10 {
            return ;
        }
        let n_params = results.parameter_names.len();
        let mut stats: Vec<ParameterStatistics> = Vec::new();
        for idx in 0..n_params
            invariant
                n_params == results.parameter_names@.len(),
                results.fixed_effects@.len() == n_params,
                traj == rows_view(results.parameter_trajectory@),
                traj_len == traj.len(),
                forall|t: int|
                    0 <= t < traj.len() ==> (#[trigger] traj[t]).len() == n_params,
                n_recent == n_recent_spec(traj.len() as int),
                10 <= n_recent <= traj_len,
                stats@.len() == idx,
                forall|t: int|
                    0 <= t < idx ==> (#[trigger] stats@[t]).name@ == results.parameter_names@[t]@
                        && stats@[t].estimate == results.fixed_effects@[t] && stats@[t].rse_percent
                        == rse_spec(traj, t),
        {
            let mut acc = F_ZERO;
            for v in 0..n_recent
                invariant
                    traj == rows_view(results.parameter_trajectory@),
                    traj_len == traj.len(),
                    idx < n_params,
                    forall|t: int|
                        0 <= t < traj.len() ==> (#[trigger] traj[t]).len() == n_params,
                    10 <= n_recent <= traj_len,
                    stat_sum_from(traj, idx as int, n_recent as int, 0, F_ZERO) == stat_sum_from(
                        traj,
                        idx as int,
                        n_recent as int,
                        v as int,
                        acc,
                    ),
            {
                acc = fp::add(acc, results.parameter_trajectory[traj_len - 1 - v][idx]);
            }
            let mean = fp::div(acc, fp::from_u64(n_recent as u64));
            let mut acc2 = F_ZERO;
            for v in 0..n_recent
                invariant
                    traj == rows_view(results.parameter_trajectory@),
                    traj_len == traj.len(),
                    idx < n_params,
                    forall|t: int|
                        0 <= t < traj.len() ==> (#[trigger] traj[t]).len() == n_params,
                    10 <= n_recent <= traj_len,
                    stat_sqdev_from(traj, idx as int, mean, n_recent as int, 0, F_ZERO)
                        == stat_sqdev_from(traj, idx as int, mean, n_recent as int, v as int, acc2),
            {
                let d = fp::sub(results.parameter_trajectory[traj_len - 1 - v][idx], mean);
                acc2 = fp::add(acc2, fp::mul(d, d));
            }
            let variance = fp::div(acc2, fp::from_u64((n_recent - 1) as u64));
            let std_error = fp::div(fp::sqrt(variance), fp::sqrt(fp::from_u64(n_recent as u64)));
            let rse = if fp::lt(fp::F_1E_NEG_10, fp::abs(mean)) {
                fp::mul(fp::div(std_error, fp::abs(mean)), F_HUNDRED)
            } else {
                F_ZERO
            };
            let name = results.parameter_names[idx].clone();
            let estimate = results.fixed_effects[idx];
            stats.push(ParameterStatistics { name, estimate, rse_percent: rse });
        }
        results.parameter_statistics = stats;
    }

    /// Covariance-cell estimates with shrinkage on trustworthy diagonal
    /// cells.
    #[verifier::rlimit(60)]
    fn calculate_omega_statistics(&self, results: &mut SaemResults, dataset: &Dataset)
        requires
            old(results).omega_statistics@.len() == 0,
            old(results).random_effects_variance@.len() == old(results).parameter_names@.len(),
            square_spec(
                old(results).random_effects_variance@,
                old(results).parameter_names@.len() as int,
            ),
            old(results).individual_parameters@.len() == dataset.individuals@.len(),
            forall|j: int|
                0 <= j < old(results).individual_parameters@.len() ==> (#[trigger] old(
                    results,
                ).individual_parameters@[j]).1@.len() == old(results).parameter_names@.len(),
        ensures
            *final(results) == (SaemResults {
                omega_statistics: final(results).omega_statistics,
                ..*old(results)
            }),
            omega_stats_post(
                old(results).random_effects_variance@,
                old(results).parameter_names@,
                old(results).individual_parameters@,
                dataset.individuals@.len() as int,
                final(results).omega_statistics@,
            ),
    {
        let ghost ip = results.individual_parameters@;
        let n_params = results.parameter_names.len();
        let n_individuals = dataset.individuals.len();
        let ghost n_inds = dataset.individuals@.len() as int;

        // Empirical variances of each parameter across individuals.
        let mut empirical_variances: Vec<u64> = crate::linalg::zeros(n_params);
        if n_individuals > 1 {
            let n_f = fp::from_u64(n_individuals as u64);
            let mut idx: usize = 0;
            while idx < n_params
                invariant
                    n_params == results.parameter_names@.len(),
                    ip == results.individual_parameters@,
                    ip.len() == n_inds,
                    n_inds == dataset.individuals@.len() as int,
                    n_individuals == dataset.individuals@.len(),
                    n_individuals > 1,
                    n_f == f_from_u64(n_inds as u64),
                    forall|j: int| 0 <= j < ip.len() ==> (#[trigger] ip[j]).1@.len() == n_params,
                    empirical_variances@.len() == n_params,
                    0 <= idx <= n_params,
                    forall|t: int|
                        0 <= t < idx ==> #[trigger] empirical_variances@[t] == emp_var_spec(
                            ip,
                            t,
                            n_inds,
                        ),
                decreases n_params - idx,
            {
                let mut acc = F_ZERO;
                for j in 0..n_individuals
                    invariant
                        ip == results.individual_parameters@,
                        ip.len() == n_inds,
                        n_individuals == dataset.individuals@.len(),
                        n_inds == dataset.individuals@.len() as int,
                        idx < n_params,
                        forall|t: int|
                            0 <= t < ip.len() ==> (#[trigger] ip[t]).1@.len() == n_params,
                        ip_col_sum_from(ip, idx as int, 0, F_ZERO) == ip_col_sum_from(
                            ip,
                            idx as int,
                            j as int,
                            acc,
                        ),
                {
                    acc = fp::add(acc, results.individual_parameters[j].1[idx]);
                }
                let mean = fp::div(acc, n_f);
                let mut acc2 = F_ZERO;
                for j in 0..n_individuals
                    invariant
                        ip == results.individual_parameters@,
                        ip.len() == n_inds,
                        n_individuals == dataset.individuals@.len(),
                        n_inds == dataset.individuals@.len() as int,
                        idx < n_params,
                        forall|t: int|
                            0 <= t < ip.len() ==> (#[trigger] ip[t]).1@.len() == n_params,
                        ip_col_sqdev_from(ip, idx as int, mean, 0, F_ZERO) == ip_col_sqdev_from(
                            ip,
                            idx as int,
                            mean,
                            j as int,
                            acc2,
                        ),
                {
                    let d = fp::sub(results.individual_parameters[j].1[idx], mean);
                    acc2 = fp::add(acc2, fp::mul(d, d));
                }
                let emp = fp::div(acc2, fp::sub(n_f, F_ONE));
                empirical_variances.set(idx, emp);
                idx = idx + 1;
            }
        }
        proof {
            assert forall|t: int| 0 <= t < n_params implies #[trigger] empirical_variances@[t]
                == emp_var_spec(ip, t, n_inds) by {}
        }

        let mut stats: Vec<OmegaStatistics> = Vec::new();
        proof {
            assert(0int * (n_params as int) == 0) by (nonlinear_arith);
        }
        for i in 0..n_params
            invariant
                n_params == results.parameter_names@.len(),
                results.random_effects_variance@.len() == n_params,
                square_spec(results.random_effects_variance@, n_params as int),
                ip == results.individual_parameters@,
                n_inds == dataset.individuals@.len() as int,
                empirical_variances@.len() == n_params,
                forall|t: int|
                    0 <= t < n_params ==> #[trigger] empirical_variances@[t] == emp_var_spec(
                        ip,
                        t,
                        n_inds,
                    ),
                stats@.len() == i * n_params,
                forall|t: int, u: int|
                    0 <= t < n_params && 0 <= u < n_params && t * n_params + u < stats@.len()
                        ==> {
                        let e = #[trigger] stats@[t * n_params + u];
                        &&& e.parameter_i@ == results.parameter_names@[t]@
                        &&& e.parameter_j@ == results.parameter_names@[u]@
                        &&& e.estimate == results.random_effects_variance@[t]@[u]
                        &&& e.shrinkage_percent == (if t == u && flt(
                            fp::F_1E_NEG_10,
                            emp_var_spec(ip, t, n_inds),
                        ) {
                            Some(
                                shrink_spec(
                                    emp_var_spec(ip, t, n_inds),
                                    results.random_effects_variance@[t]@[u],
                                ),
                            )
                        } else {
                            Option::<u64>::None
                        })
                    },
        {
            for j in 0..n_params
                invariant
                    n_params == results.parameter_names@.len(),
                    results.random_effects_variance@.len() == n_params,
                    square_spec(results.random_effects_variance@, n_params as int),
                    ip == results.individual_parameters@,
                    n_inds == dataset.individuals@.len() as int,
                    i < n_params,
                    empirical_variances@.len() == n_params,
                    forall|t: int|
                        0 <= t < n_params ==> #[trigger] empirical_variances@[t] == emp_var_spec(
                            ip,
                            t,
                            n_inds,
                        ),
                    stats@.len() == i * n_params + j,
                    forall|t: int, u: int|
                        0 <= t < n_params && 0 <= u < n_params && t * n_params + u < stats@.len()
                            ==> {
                            let e = #[trigger] stats@[t * n_params + u];
                            &&& e.parameter_i@ == results.parameter_names@[t]@
                            &&& e.parameter_j@ == results.parameter_names@[u]@
                            &&& e.estimate == results.random_effects_variance@[t]@[u]
                            &&& e.shrinkage_percent == (if t == u && flt(
                                fp::F_1E_NEG_10,
                                emp_var_spec(ip, t, n_inds),
                            ) {
                                Some(
                                    shrink_spec(
                                        emp_var_spec(ip, t, n_inds),
                                        results.random_effects_variance@[t]@[u],
                                    ),
                                )
                            } else {
                                Option::<u64>::None
                            })
                        },
            {
                let omega_estimate = results.random_effects_variance[i][j];
                let shrinkage_percent: Option<u64> = if i == j && fp::lt(
                    fp::F_1E_NEG_10,
                    empirical_variances[i],
                ) {
                    let shrinkage = fp::mul(
                        fp::sub(F_ONE, fp::div(empirical_variances[i], fp::abs(omega_estimate))),
                        F_HUNDRED,
                    );
                    Some(fp::min(fp::max(shrinkage, F_ZERO), F_HUNDRED))
                } else {
                    None
                };
                stats.push(
                    OmegaStatistics {
                        parameter_i: results.parameter_names[i].clone(),
                        parameter_j: results.parameter_names[j].clone(),
                        estimate: omega_estimate,
                        shrinkage_percent,
                    },
                );
                proof {
                    assert(i * n_params + j + 1 == i * n_params + (j + 1));
                    assert forall|t: int, u: int|
                        0 <= t < n_params && 0 <= u < n_params && t * n_params + u < stats@.len()
                            implies {
                        let e = #[trigger] stats@[t * n_params + u];
                        &&& e.parameter_i@ == results.parameter_names@[t]@
                        &&& e.parameter_j@ == results.parameter_names@[u]@
                        &&& e.estimate == results.random_effects_variance@[t]@[u]
                        &&& e.shrinkage_percent == (if t == u && flt(
                            fp::F_1E_NEG_10,
                            emp_var_spec(ip, t, n_inds),
                        ) {
                            Some(
                                shrink_spec(
                                    emp_var_spec(ip, t, n_inds),
                                    results.random_effects_variance@[t]@[u],
                                ),
                            )
                        } else {
                            Option::<u64>::None
                        })
                    } by {
                        if t * n_params + u == i * n_params + j {
                            lemma_rowmajor_unique(n_params as int, t, u, i as int, j as int);
                        }
                    }
                }
            }
            proof {
                assert(i * n_params + n_params == (i + 1) * n_params) by (nonlinear_arith);
            }
        }
        proof {
            assert forall|t: int, u: int| 0 <= t < n_params && 0 <= u < n_params implies {
                let e = #[trigger] stats@[t * n_params + u];
                &&& e.parameter_i@ == results.parameter_names@[t]@
                &&& e.parameter_j@ == results.parameter_names@[u]@
                &&& e.estimate == results.random_effects_variance@[t]@[u]
                &&& e.shrinkage_percent == (if t == u && flt(
                    fp::F_1E_NEG_10,
                    emp_var_spec(ip, t, n_inds),
                ) {
                    Some(
                        shrink_spec(
                            emp_var_spec(ip, t, n_inds),
                            results.random_effects_variance@[t]@[u],
                        ),
                    )
                } else {
                    Option::<u64>::None
                })
            } by {
                assert(t * n_params + u < n_params * n_params && n_params * (n_params as int)
                    == stats@.len()) by (nonlinear_arith)
                    requires
                        0 <= t < n_params,
                        0 <= u < n_params,
                        stats@.len() == n_params * n_params,
                ;
            }
        }
        results.omega_statistics = stats;
    }
}


/// How a results value reports a final SAEM state.
pub open spec fn results_match(
    mt: ModelType,
    inds: Seq<Individual>,
    st: SaemState,
    res: SaemResults,
) -> bool {
    &&& res.fixed_effects@ == st.fe
    &&& rows_view(res.random_effects_variance@) == st.omega
    &&& res.residual_variance == st.resid
    &&& rows_view(res.parameter_trajectory@) == st.traj
    &&& res.log_likelihood_trajectory@ == st.ll_traj
    &&& res.final_log_likelihood == (if st.ll_traj.len() > 0 {
        st.ll_traj.last()
    } else {
        F_NEG_INF
    })
    &&& res.objective_function_value == fmul(F_NEG_TWO, res.final_log_likelihood)
    &&& res.converged == st.converged
    &&& res.n_iterations == st.traj.len()
    &&& res.individual_parameters@.len() == inds.len()
    &&& forall|j: int|
        0 <= j < inds.len() ==> (#[trigger] res.individual_parameters@[j]).0 == inds[j].id
            && res.individual_parameters@[j].1@ == st.ind[j]
    &&& res.parameter_names@.len() == n_params_spec(mt)
    &&& forall|i: int|
        0 <= i < res.parameter_names@.len() ==> (#[trigger] res.parameter_names@[i])@
            == param_names_spec(mt)[i]
    &&& param_stats_post(st.traj, st.fe, res.parameter_names@, res.parameter_statistics@)
    &&& omega_stats_post(
        res.random_effects_variance@,
        res.parameter_names@,
        res.individual_parameters@,
        inds.len() as int,
        res.omega_statistics@,
    )
}

/// What a fit from this base seed returns: the results of the state the
/// iteration recurrence reaches, or the integration fault that stopped it.
pub open spec fn saem_fit_post(
    mt: ModelType,
    inds: Seq<Individual>,
    cfg: EstimationConfig,
    base: u64,
    r: Result<SaemResults, SolverError>,
) -> bool {
    match (r, saem_iter_spec(mt, inds, cfg, base, cfg.n_iterations as nat)) {
        (Ok(res), Ok(st)) => results_match(mt, inds, st, res),
        (Err(e), Err(e2)) => e == e2,
        _ => false,
    }
}

impl SaemEstimator {
    /// Runs the SAEM loop: per iteration, one Metropolis-Hastings draw per
    /// individual, a gain-blended population update, and past burn-in a
    /// periodic convergence check that can stop the run early.  With a fixed
    /// seed the whole run is a function of that seed, the dataset and the
    /// configuration; without one a seed is drawn from entropy.
    #[verifier::rlimit(100)]
    pub fn fit(&mut self, dataset: &Dataset) -> (r: Result<SaemResults, SolverError>)
        requires
            old(self).config.mcmc_samples_per_iteration * n_params_spec(
                old(self).model.model_type,
            ) < u64::MAX,
            crate::data::obs_count_from(dataset.individuals@, 0) <= usize::MAX,
        ensures
            old(self).config.seed matches Some(b) ==> saem_fit_post(
                old(self).model.model_type,
                dataset.individuals@,
                old(self).config,
                b,
                r,
            ),
            exists|b: u64|
                #[trigger] saem_fit_post(
                    old(self).model.model_type,
                    dataset.individuals@,
                    old(self).config,
                    b,
                    r,
                ),
    {
        let ghost mt = self.model.model_type;
        let ghost inds = dataset.individuals@;
        let ghost cfg = self.config;

        let names = self.model.parameter_names();
        let n_params = names.len();
        let base: u64 = match self.config.seed {
            Some(s) => s,
            None => entropy_seed(),
        };

        let mut current_params = self.model.default_parameters();
        let n_individuals = dataset.individuals.len();
        let mut individual_params: Vec<Vec<u64>> = Vec::new();
        for j in 0..n_individuals
            invariant
                individual_params@.len() == j,
                current_params.fixed_effects@ == default_fixed_spec(mt),
                mt == self.model.model_type,
                forall|t: int|
                    0 <= t < j ==> (#[trigger] individual_params@[t])@ == default_fixed_spec(mt),
        {
            individual_params.push(crate::linalg::copy_vec(&current_params.fixed_effects));
        }

        let mut sa_sum_theta: Vec<u64> = crate::linalg::zeros(n_params);
        let mut sa_sum_theta_sq: Vec<Vec<u64>> = crate::linalg::zero_mat(n_params);
        let mut sa_sum_sigma: u64 = F_ZERO;
        let mut traj: Vec<Vec<u64>> = Vec::new();
        let mut ll_traj: Vec<u64> = Vec::new();
        let mut converged = false;

        proof {
            let st0 = saem_init_spec(mt, inds);
            assert(current_params.fixed_effects@ =~= st0.fe);
            assert(rows_view(current_params.random_effects_variance@) =~~= st0.omega);
            assert(rows_view(individual_params@) =~~= st0.ind);
            assert(sa_sum_theta@ =~= st0.sum_theta);
            assert(rows_view(sa_sum_theta_sq@) =~~= st0.sum_sq);
            assert(rows_view(traj@) =~= st0.traj);
            assert(saem_iter_spec(mt, inds, cfg, base, 0) == Ok::<SaemState, SolverError>(
                SaemState {
                    fe: current_params.fixed_effects@,
                    omega: rows_view(current_params.random_effects_variance@),
                    resid: current_params.residual_variance,
                    ind: rows_view(individual_params@),
                    sum_theta: sa_sum_theta@,
                    sum_sq: rows_view(sa_sum_theta_sq@),
                    sum_sigma: sa_sum_sigma,
                    traj: rows_view(traj@),
                    ll_traj: ll_traj@,
                    converged: converged,
                    done: false,
                },
            ));
        }

        let n_iterations = self.config.n_iterations;
        let mut iteration: usize = 0;
        let mut broke = false;
        while iteration < n_iterations && !broke
            invariant
                0 <= iteration <= n_iterations,
                mt == self.model.model_type,
                inds == dataset.individuals@,
                cfg == self.config,
                *self == *old(self),
                n_iterations == cfg.n_iterations,
                n_params == n_params_spec(mt),
                n_individuals == inds.len(),
                cfg.mcmc_samples_per_iteration * n_params_spec(mt) < u64::MAX,
                crate::data::obs_count_from(inds, 0) <= usize::MAX,
                current_params.fixed_effects@.len() == n_params,
                square_spec(current_params.random_effects_variance@, n_params as int),
                individual_params@.len() == inds.len(),
                forall|t: int|
                    0 <= t < individual_params@.len() ==> (
                    #[trigger] individual_params@[t])@.len() == n_params,
                sa_sum_theta@.len() == n_params,
                square_spec(sa_sum_theta_sq@, n_params as int),
                forall|t: int| 0 <= t < traj@.len() ==> (#[trigger] traj@[t])@.len() == n_params,
                cfg.seed matches Some(sv) ==> base == sv,
                !broke ==> converged == false,
                !broke ==> saem_iter_spec(mt, inds, cfg, base, iteration as nat) == Ok::<
                    SaemState,
                    SolverError,
                >(
                    SaemState {
                        fe: current_params.fixed_effects@,
                        omega: rows_view(current_params.random_effects_variance@),
                        resid: current_params.residual_variance,
                        ind: rows_view(individual_params@),
                        sum_theta: sa_sum_theta@,
                        sum_sq: rows_view(sa_sum_theta_sq@),
                        sum_sigma: sa_sum_sigma,
                        traj: rows_view(traj@),
                        ll_traj: ll_traj@,
                        converged: converged,
                        done: false,
                    },
                ),
                broke ==> saem_iter_spec(mt, inds, cfg, base, cfg.n_iterations as nat) == Ok::<
                    SaemState,
                    SolverError,
                >(
                    SaemState {
                        fe: current_params.fixed_effects@,
                        omega: rows_view(current_params.random_effects_variance@),
                        resid: current_params.residual_variance,
                        ind: rows_view(individual_params@),
                        sum_theta: sa_sum_theta@,
                        sum_sq: rows_view(sa_sum_theta_sq@),
                        sum_sigma: sa_sum_sigma,
                        traj: rows_view(traj@),
                        ll_traj: ll_traj@,
                        converged: converged,
                        done: true,
                    },
                ),
            decreases n_iterations - iteration + (if broke {
                0int
            } else {
                1int
            }),
        {
            let ghost st_before = SaemState {
                fe: current_params.fixed_effects@,
                omega: rows_view(current_params.random_effects_variance@),
                resid: current_params.residual_variance,
                ind: rows_view(individual_params@),
                sum_theta: sa_sum_theta@,
                sum_sq: rows_view(sa_sum_theta_sq@),
                sum_sigma: sa_sum_sigma,
                traj: rows_view(traj@),
                ll_traj: ll_traj@,
                converged: converged,
                done: false,
            };

            let gamma = saem_gain(iteration, self.config.n_burnin);
            let mut iteration_log_likelihood = F_ZERO;

            let ghost ind0 = rows_view(individual_params@);
            let ghost fe_s = current_params.fixed_effects@;
            let ghost om_s = rows_view(current_params.random_effects_variance@);

            let mut j: usize = 0;
            while j < n_individuals
                invariant
                    0 <= j <= n_individuals,
                    mt == self.model.model_type,
                    inds == dataset.individuals@,
                    cfg == self.config,
                    *self == *old(self),
                    n_params == n_params_spec(mt),
                    n_individuals == inds.len(),
                    cfg.mcmc_samples_per_iteration * n_params_spec(mt) < u64::MAX,
                    iteration < n_iterations,
                    n_iterations == cfg.n_iterations,
                    current_params.fixed_effects@ == fe_s,
                    rows_view(current_params.random_effects_variance@) == om_s,
                    fe_s.len() == n_params,
                    square_spec(current_params.random_effects_variance@, n_params as int),
                    individual_params@.len() == inds.len(),
                    forall|t: int|
                        0 <= t < individual_params@.len() ==> (
                        #[trigger] individual_params@[t])@.len() == n_params,
                    cfg.seed matches Some(sv) ==> base == sv,
                    st_before.fe == fe_s,
                    st_before.omega == om_s,
                    st_before.ind == ind0,
                    st_before.resid == current_params.residual_variance,
                    st_before.sum_theta == sa_sum_theta@,
                    st_before.sum_sq == rows_view(sa_sum_theta_sq@),
                    st_before.sum_sigma == sa_sum_sigma,
                    st_before.traj == rows_view(traj@),
                    st_before.ll_traj == ll_traj@,
                    st_before.converged == false,
                    st_before.done == false,
                    saem_iter_spec(mt, inds, cfg, base, iteration as nat) == Ok::<
                        SaemState,
                        SolverError,
                    >(st_before),
                    estep_from(mt, inds, cfg, base, iteration as u64, fe_s, om_s, ind0, 0, F_ZERO)
                        == estep_from(
                        mt,
                        inds,
                        cfg,
                        base,
                        iteration as u64,
                        fe_s,
                        om_s,
                        rows_view(individual_params@),
                        j as int,
                        iteration_log_likelihood,
                    ),
                decreases n_individuals - j,
            {
                let individual = &dataset.individuals[j];
                let seed = base.wrapping_add(iteration as u64).wrapping_add(
                    id_bits(individual.id),
                );
                proof {
                    assert(seed == mcmc_seed_spec(base, iteration as u64, inds[j as int].id));
                }
                let mcmc_config = McmcConfig {
                    n_samples: self.config.mcmc_samples_per_iteration,
                    step_size: self.config.step_size,
                    target_acceptance: self.config.target_acceptance,
                    seed: Some(seed),
                };
                let mut sampler = McmcSampler::new(&self.model, &self.solver, mcmc_config);
                let res = sampler.sample_individual_parameters(
                    individual,
                    &current_params,
                    &individual_params[j],
                );
                proof {
                    crate::mcmc::lemma_sample_len(
                        mt,
                        inds[j as int],
                        fe_s,
                        om_s,
                        F_ONE,
                        cfg.step_size,
                        seed,
                        seed ^ UNIFORM_SEED_TAG,
                        individual_params@[j as int]@,
                        cfg.mcmc_samples_per_iteration as nat,
                    );
                }
                match res {
                    Ok(pair) => {
                        let (new_params, log_like) = pair;
                        let ghost ip_prev = rows_view(individual_params@);
                        let ghost np_v = new_params@;
                        individual_params.set(j, new_params);
                        iteration_log_likelihood = fp::add(iteration_log_likelihood, log_like);
                        proof {
                            assert(rows_view(individual_params@) =~~= ip_prev.update(
                                j as int,
                                np_v,
                            ));
                        }
                        j = j + 1;
                    },
                    Err(e) => {
                        proof {
                            assert(estep_from(
                                mt,
                                inds,
                                cfg,
                                base,
                                iteration as u64,
                                fe_s,
                                om_s,
                                rows_view(individual_params@),
                                j as int,
                                iteration_log_likelihood,
                            ) == Err::<(Seq<Seq<u64>>, u64), SolverError>(e));
                            assert(saem_step_spec(mt, inds, cfg, base, st_before, iteration as int)
                                == Err::<SaemState, SolverError>(e));
                            assert(saem_iter_spec(mt, inds, cfg, base, (iteration + 1) as nat)
                                == Err::<SaemState, SolverError>(e));
                            lemma_saem_err_freeze(
                                mt,
                                inds,
                                cfg,
                                base,
                                (iteration + 1) as nat,
                                cfg.n_iterations as nat,
                                e,
                            );
                            assert(saem_fit_post(mt, inds, cfg, base, Err::<
                                SaemResults,
                                SolverError,
                            >(e)));
                        }
                        return Err(e);
                    },
                }
            }

            self.update_population_parameters(
                &individual_params,
                &mut current_params,
                &mut sa_sum_theta,
                &mut sa_sum_theta_sq,
                &mut sa_sum_sigma,
                gamma,
                dataset,
            );

            proof {
                assert(rows_view(current_params.random_effects_variance@) == mstep_spec(
                    mt,
                    inds,
                    rows_view(individual_params@),
                    n_params_spec(mt) as int,
                    gamma,
                    st_before.sum_theta,
                    st_before.sum_sq,
                    st_before.sum_sigma,
                    st_before.resid,
                ).omega);
                assert(current_params.random_effects_variance@.len() == n_params);
                assert forall|t: int| 0 <= t < n_params implies (
                #[trigger] current_params.random_effects_variance@[t])@.len() == n_params by {
                    assert(rows_view(current_params.random_effects_variance@)[t]
                        == current_params.random_effects_variance@[t]@);
                }
                assert forall|t: int| 0 <= t < n_params implies (
                #[trigger] sa_sum_theta_sq@[t])@.len() == n_params by {
                    assert(rows_view(sa_sum_theta_sq@)[t] == sa_sum_theta_sq@[t]@);
                }
            }
            traj.push(crate::linalg::copy_vec(&current_params.fixed_effects));
            ll_traj.push(iteration_log_likelihood);

            let mut hit = false;
            if iteration > self.config.n_burnin && iteration % 50 == 0 {
                if convergence_check(&ll_traj, self.config.convergence_tolerance) {
                    converged = true;
                    hit = true;
                }
            }

            proof {
                let st_after = SaemState {
                    fe: current_params.fixed_effects@,
                    omega: rows_view(current_params.random_effects_variance@),
                    resid: current_params.residual_variance,
                    ind: rows_view(individual_params@),
                    sum_theta: sa_sum_theta@,
                    sum_sq: rows_view(sa_sum_theta_sq@),
                    sum_sigma: sa_sum_sigma,
                    traj: rows_view(traj@),
                    ll_traj: ll_traj@,
                    converged: converged,
                    done: hit,
                };
                assert(rows_view(traj@) =~~= st_before.traj.push(current_params.fixed_effects@));
                assert(ll_traj@ =~= st_before.ll_traj.push(iteration_log_likelihood));
                assert(saem_step_spec(mt, inds, cfg, base, st_before, iteration as int) == Ok::<
                    SaemState,
                    SolverError,
                >(st_after));
                assert(saem_iter_spec(mt, inds, cfg, base, (iteration + 1) as nat) == Ok::<
                    SaemState,
                    SolverError,
                >(st_after));
            }

            iteration = iteration + 1;
            if hit {
                broke = true;
                proof {
                    lemma_saem_freeze(
                        mt,
                        inds,
                        cfg,
                        base,
                        iteration as nat,
                        cfg.n_iterations as nat,
                    );
                }
            }
        }

        let ghost st_final = SaemState {
            fe: current_params.fixed_effects@,
            omega: rows_view(current_params.random_effects_variance@),
            resid: current_params.residual_variance,
            ind: rows_view(individual_params@),
            sum_theta: sa_sum_theta@,
            sum_sq: rows_view(sa_sum_theta_sq@),
            sum_sigma: sa_sum_sigma,
            traj: rows_view(traj@),
            ll_traj: ll_traj@,
            converged: converged,
            done: broke,
        };
        proof {
            assert(saem_iter_spec(mt, inds, cfg, base, cfg.n_iterations as nat) == Ok::<
                SaemState,
                SolverError,
            >(st_final));
        }

        let mut results = SaemResults::new(n_params, names);
        results.fixed_effects = crate::linalg::copy_vec(&current_params.fixed_effects);
        results.random_effects_variance = crate::linalg::copy_mat(
            &current_params.random_effects_variance,
        );
        results.residual_variance = current_params.residual_variance;
        let ll_len = ll_traj.len();
        results.final_log_likelihood = if ll_len > 0 {
            ll_traj[ll_len - 1]
        } else {
            F_NEG_INF
        };
        results.objective_function_value = fp::mul(F_NEG_TWO, results.final_log_likelihood);
        results.converged = converged;
        results.n_iterations = traj.len();

        let mut stored: Vec<(i32, Vec<u64>)> = Vec::new();
        for j in 0..n_individuals
            invariant
                n_individuals == inds.len(),
                inds == dataset.individuals@,
                individual_params@.len() == inds.len(),
                forall|t: int|
                    0 <= t < individual_params@.len() ==> (
                    #[trigger] individual_params@[t])@.len() == n_params,
                stored@.len() == j,
                forall|t: int|
                    0 <= t < j ==> (#[trigger] stored@[t]).0 == inds[t].id && stored@[t].1@
                        == individual_params@[t]@,
        {
            stored.push((dataset.individuals[j].id, crate::linalg::copy_vec(&individual_params[j])));
        }
        results.individual_parameters = stored;
        results.parameter_trajectory = traj;
        results.log_likelihood_trajectory = ll_traj;

        self.calculate_parameter_statistics(&mut results);
        self.calculate_omega_statistics(&mut results, dataset);

        proof {
            assert(rows_view(results.random_effects_variance@) =~~= st_final.omega);
            assert(rows_view(results.parameter_trajectory@) =~~= st_final.traj);
            assert(results_match(mt, inds, st_final, results));
            assert(saem_fit_post(mt, inds, cfg, base, Ok::<SaemResults, SolverError>(results)));
        }
        Ok(results)
    }
}


/// A SAEM run is reproducible: any two results meeting `fit`'s contract at
/// the same model, dataset, configuration and base seed carry the same
/// parameter trajectory, the same log-likelihood trajectory, the same final
/// estimates and the same convergence outcome, or the same fault.
pub proof fn lemma_saem_reproducible(
    mt: ModelType,
    inds: Seq<Individual>,
    cfg: EstimationConfig,
    base: u64,
    r1: Result<SaemResults, SolverError>,
    r2: Result<SaemResults, SolverError>,
)
    requires
        saem_fit_post(mt, inds, cfg, base, r1),
        saem_fit_post(mt, inds, cfg, base, r2),
    ensures
        match (r1, r2) {
            (Ok(a), Ok(b)) => {
                &&& rows_view(a.parameter_trajectory@) == rows_view(b.parameter_trajectory@)
                &&& a.log_likelihood_trajectory@ == b.log_likelihood_trajectory@
                &&& a.fixed_effects@ == b.fixed_effects@
                &&& rows_view(a.random_effects_variance@) == rows_view(b.random_effects_variance@)
                &&& a.residual_variance == b.residual_variance
                &&& a.final_log_likelihood == b.final_log_likelihood
                &&& a.objective_function_value == b.objective_function_value
                &&& a.converged == b.converged
                &&& a.n_iterations == b.n_iterations
            },
            (Err(e1), Err(e2)) => e1 == e2,
            _ => false,
        },
{
}

} // verus!
