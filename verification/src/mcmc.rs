//! Per-individual Metropolis-Hastings sampling of random effects.
//!
//! The whole chain is pinned functionally: proposals are built from the
//! named draws of a seeded normal stream, acceptance uses the named draws of
//! a seeded uniform stream, and the log-likelihood is the exact binary64
//! fold over the individual's observations and model predictions.  Two
//! samplers built from the same seed therefore provably return the same
//! draw.

use vstd::prelude::*;

use crate::data::{DosingRecord, Individual, Observation};
use crate::fp;
use crate::fp::{
    f_from_u64, f_neg, fadd, fdiv, fexp, fln, flt, fmax, fmin, fmul, fsub, F_HALF, F_NEG_TEN,
    F_ONE, F_PI, F_TENTH, F_TWO, F_ZERO,
};
use crate::models::{
    n_compartments_spec, n_params_spec, observe_spec, square_spec, CompartmentModel,
    ModelParameters, ModelState,
};
use crate::rng::{entropy_seed, normal_draw, uniform_draw, NormalStream, UniformStream};
use crate::solver::{integ_spec, RungeKuttaSolver, SolverConfig, SolverError};

verus! {

/// Distinguishes the uniform stream's seed from the normal stream's.
pub const UNIFORM_SEED_TAG: u64 = 0x9E3779B97F4A7C15;

/// Settings of one sampling call.
#[derive(Debug, Clone)]
pub struct McmcConfig {
    pub n_samples: usize,
    pub step_size: u64,
    pub target_acceptance: u64,
    pub seed: Option<u64>,
}

impl Default for McmcConfig {
    /// The stock sampler settings: a hundred draws with step 0.1.
    fn default() -> (r: Self)
        ensures
            r.n_samples == 100usize,
            r.step_size == F_TENTH,
            r.target_acceptance == fp::F_POINT_44,
            r.seed == Option::<u64>::None,
    {
        McmcConfig {
            n_samples: 100,
            step_size: F_TENTH,
            target_acceptance: fp::F_POINT_44,
            seed: None,
        }
    }
}

/// The state after the dosing events up to index `i` are applied: between
/// events the system is integrated dosing-free, and each dose lands as an
/// instantaneous deposit in its compartment.
pub open spec fn dose_phase_spec(
    mt: crate::models::ModelType,
    fe: Seq<u64>,
    doses: Seq<DosingRecord>,
    i: int,
    y: Seq<u64>,
    last: u64,
    max_step: u64,
) -> Result<(Seq<u64>, u64), SolverError>
    decreases doses.len() - i,
{
    if i < 0 || i >= doses.len() {
        Ok((y, last))
    } else {
        let d = doses[i];
        if flt(last, d.time) {
            match integ_spec(mt, fe, last, d.time, y, max_step) {
                Ok(y2) => dose_phase_spec(
                    mt,
                    fe,
                    doses,
                    i + 1,
                    crate::models::apply_dose_spec(y2, d.compartment as usize, d.amount),
                    d.time,
                    max_step,
                ),
                Err(e) => Err(e),
            }
        } else {
            dose_phase_spec(
                mt,
                fe,
                doses,
                i + 1,
                crate::models::apply_dose_spec(y, d.compartment as usize, d.amount),
                d.time,
                max_step,
            )
        }
    }
}

/// The predicted concentrations at the observations from index `i` on,
/// integrating forward from state `y` at time `last`.
pub open spec fn obs_phase_spec(
    mt: crate::models::ModelType,
    fe: Seq<u64>,
    obs: Seq<Observation>,
    i: int,
    y: Seq<u64>,
    last: u64,
    max_step: u64,
    acc: Seq<u64>,
) -> Result<Seq<u64>, SolverError>
    decreases obs.len() - i,
{
    if i < 0 || i >= obs.len() {
        Ok(acc)
    } else {
        let o = obs[i];
        if flt(last, o.time) {
            match integ_spec(mt, fe, last, o.time, y, max_step) {
                Ok(y2) => obs_phase_spec(
                    mt,
                    fe,
                    obs,
                    i + 1,
                    y2,
                    o.time,
                    max_step,
                    acc.push(observe_spec(mt, fe, y2, o.compartment as usize)),
                ),
                Err(e) => Err(e),
            }
        } else {
            obs_phase_spec(
                mt,
                fe,
                obs,
                i + 1,
                y,
                last,
                max_step,
                acc.push(observe_spec(mt, fe, y, o.compartment as usize)),
            )
        }
    }
}

/// The empty starting state of a model: every compartment at zero.
pub open spec fn initial_state_spec(mt: crate::models::ModelType) -> Seq<u64> {
    Seq::new(n_compartments_spec(mt) as nat, |i: int| F_ZERO)
}

/// The predicted concentration at each observation of an individual under
/// the given individual fixed effects: doses applied in order from an empty
/// system at time zero, then the observations answered in order.
pub open spec fn predict_spec(
    mt: crate::models::ModelType,
    fe: Seq<u64>,
    ind: Individual,
    max_step: u64,
) -> Result<Seq<u64>, SolverError> {
    match dose_phase_spec(mt, fe, ind.dosing_records@, 0, initial_state_spec(mt), F_ZERO, max_step) {
        Ok(s) => obs_phase_spec(mt, fe, ind.observations@, 0, s.0, s.1, max_step, Seq::empty()),
        Err(e) => Err(e),
    }
}

/// The data log-likelihood fold over observation/prediction pairs: each pair
/// with a positive observed value and a positive prediction contributes a
/// log-normal error term with the fixed proportional sigma 0.1 the sampler
/// uses.
pub open spec fn data_ll_from(obs: Seq<Observation>, preds: Seq<u64>, i: int, acc: u64) -> u64
    decreases obs.len() - i,
{
    if i < 0 || i >= obs.len() || i >= preds.len() {
        acc
    } else {
        let o = obs[i];
        let p = preds[i];
        let acc2 = if flt(F_ZERO, o.value) && flt(F_ZERO, p) {
            let q = fdiv(fsub(fln(o.value), fln(p)), F_TENTH);
            let a1 = fsub(acc, fmul(F_HALF, fmul(q, q)));
            fsub(a1, fmul(F_HALF, fln(fmul(fmul(F_TWO, F_PI), fmul(F_TENTH, F_TENTH)))))
        } else {
            acc
        };
        data_ll_from(obs, preds, i + 1, acc2)
    }
}

/// The running quadratic form and determinant of the diagonal-normal prior.
pub open spec fn prior_accum(
    ind: Seq<u64>,
    fe: Seq<u64>,
    omega: Seq<Seq<u64>>,
    i: int,
    q: u64,
    det: u64,
) -> (u64, u64)
    decreases ind.len() - i,
{
    if i < 0 || i >= ind.len() {
        (q, det)
    } else {
        let diff = fsub(ind[i], fe[i]);
        let variance = omega[i][i];
        prior_accum(
            ind,
            fe,
            omega,
            i + 1,
            fadd(q, fdiv(fmul(diff, diff), variance)),
            fmul(det, variance),
        )
    }
}

/// The prior log-likelihood of individual parameters under the population's
/// diagonal normal: the quadratic form, the log-determinant and the
/// normalizing constant, combined exactly as the sampler computes them.
pub open spec fn prior_ll_spec(ind: Seq<u64>, pop_fe: Seq<u64>, pop_omega: Seq<Seq<u64>>) -> u64 {
    let acc = prior_accum(ind, pop_fe, pop_omega, 0, F_ZERO, F_ONE);
    fsub(
        fsub(fmul(f_neg(F_HALF), acc.0), fmul(F_HALF, fln(acc.1))),
        fmul(fmul(F_HALF, f_from_u64(ind.len() as u64)), fln(fmul(F_TWO, F_PI))),
    )
}

/// The total log-likelihood of individual parameters: the data term over the
/// model predictions plus the prior term, or the integration fault that
/// stopped the prediction.
pub open spec fn ll_spec(
    mt: crate::models::ModelType,
    ind: Individual,
    params: Seq<u64>,
    pop_fe: Seq<u64>,
    pop_omega: Seq<Seq<u64>>,
    max_step: u64,
) -> Result<u64, SolverError> {
    match predict_spec(mt, params, ind, max_step) {
        Ok(preds) => Ok(
            fadd(
                data_ll_from(ind.observations@, preds, 0, F_ZERO),
                prior_ll_spec(params, pop_fe, pop_omega),
            ),
        ),
        Err(e) => Err(e),
    }
}

/// One proposal: every component moved by the step size times its own named
/// normal draw, clamped to at least -10.
pub open spec fn proposal_spec(cur: Seq<u64>, step: u64, nseed: u64, npos: int) -> Seq<u64> {
    Seq::new(cur.len(), |j: int| fmax(fadd(cur[j], fmul(step, normal_draw(nseed, npos + j))), F_NEG_TEN))
}

/// The Metropolis-Hastings chain with `k` steps left: each step proposes,
/// evaluates the likelihood, and accepts when the named uniform draw falls
/// below `min(exp(logL' - logL), 1)`; the result is the final state and its
/// log-likelihood, or the first integration fault.
pub open spec fn mh_chain_spec(
    mt: crate::models::ModelType,
    ind: Individual,
    pop_fe: Seq<u64>,
    pop_omega: Seq<Seq<u64>>,
    max_step: u64,
    step: u64,
    nseed: u64,
    npos: int,
    useed: u64,
    upos: int,
    cur: Seq<u64>,
    cur_ll: u64,
    k: nat,
) -> Result<(Seq<u64>, u64), SolverError>
    decreases k,
{
    if k == 0 {
        Ok((cur, cur_ll))
    } else {
        let prop = proposal_spec(cur, step, nseed, npos);
        match ll_spec(mt, ind, prop, pop_fe, pop_omega, max_step) {
            Err(e) => Err(e),
            Ok(pll) => {
                let alpha = fmin(fexp(fsub(pll, cur_ll)), F_ONE);
                let accept = flt(uniform_draw(useed, upos), alpha);
                let nxt = if accept {
                    prop
                } else {
                    cur
                };
                let nll = if accept {
                    pll
                } else {
                    cur_ll
                };
                mh_chain_spec(
                    mt,
                    ind,
                    pop_fe,
                    pop_omega,
                    max_step,
                    step,
                    nseed,
                    npos + cur.len(),
                    useed,
                    upos + 1,
                    nxt,
                    nll,
                    (k - 1) as nat,
                )
            },
        }
    }
}

/// What one full sampling call returns: the chain run from the initial
/// parameters and their log-likelihood, or the first integration fault.
pub open spec fn sample_spec(
    mt: crate::models::ModelType,
    ind: Individual,
    pop_fe: Seq<u64>,
    pop_omega: Seq<Seq<u64>>,
    max_step: u64,
    step: u64,
    nseed: u64,
    useed: u64,
    init: Seq<u64>,
    k: nat,
) -> Result<(Seq<u64>, u64), SolverError> {
    match ll_spec(mt, ind, init, pop_fe, pop_omega, max_step) {
        Err(e) => Err(e),
        Ok(ll0) => mh_chain_spec(
            mt,
            ind,
            pop_fe,
            pop_omega,
            max_step,
            step,
            nseed,
            0,
            useed,
            0,
            init,
            ll0,
            k,
        ),
    }
}

/// A `Result` of a vector and a value, seen through the vector's view.
pub open spec fn pair_view(r: Result<(Vec<u64>, u64), SolverError>) -> Result<
    (Seq<u64>, u64),
    SolverError,
> {
    match r {
        Ok(p) => Ok((p.0@, p.1)),
        Err(e) => Err(e),
    }
}

/// A `Result` of a vector, seen through the vector's view.
pub open spec fn vec_view(r: Result<Vec<u64>, SolverError>) -> Result<Seq<u64>, SolverError> {
    match r {
        Ok(v) => Ok(v@),
        Err(e) => Err(e),
    }
}

/// The per-individual Metropolis-Hastings sampler: a model, a solver, and
/// two seeded draw streams of its own.
pub struct McmcSampler<'a> {
    pub model: &'a CompartmentModel,
    pub solver: &'a RungeKuttaSolver,
    pub config: McmcConfig,
    pub normals: NormalStream,
    pub uniforms: UniformStream,
}

impl<'a> McmcSampler<'a> {
    /// A sampler over this model and solver.  With a fixed seed the normal
    /// stream takes the seed itself and the uniform stream a tagged variant
    /// of it; without one, a single entropy seed takes the fixed seed's
    /// place, so the run is random but still internally consistent.
    pub fn new(model: &'a CompartmentModel, solver: &'a RungeKuttaSolver, config: McmcConfig) -> (r:
        Self)
        ensures
            r.model == model,
            r.solver == solver,
            r.config == config,
            r.normals.pos_spec() == 0,
            r.uniforms.pos_spec() == 0,
            config.seed matches Some(s) ==> r.normals.seed_spec() == s && r.uniforms.seed_spec() == (
            s ^ UNIFORM_SEED_TAG),
    {
        let base: u64 = match config.seed {
            Some(s) => s,
            None => entropy_seed(),
        };
        let normals = NormalStream::new(base);
        let uniforms = UniformStream::new(base ^ UNIFORM_SEED_TAG);
        McmcSampler { model, solver, config, normals, uniforms }
    }

    /// The model predictions at every observation of the individual, under
    /// the given individual fixed effects.
    pub fn predict_concentrations(&self, individual: &Individual, individual_params: &Vec<u64>) -> (r:
        Result<Vec<u64>, SolverError>)
        requires
            individual_params@.len() == n_params_spec(self.model.model_type),
        ensures
            vec_view(r) == predict_spec(
                self.model.model_type,
                individual_params@,
                *individual,
                F_ONE,
            ),
    {
        let mut temp_params = self.model.default_parameters();
        temp_params.fixed_effects = crate::linalg::copy_vec(individual_params);
        predict_individual(self.model, self.solver, individual, &temp_params)
    }

    /// The log-likelihood of the individual parameters: data term plus prior
    /// term.
    pub fn log_likelihood(
        &self,
        individual: &Individual,
        individual_params: &Vec<u64>,
        population_params: &ModelParameters,
    ) -> (r: Result<u64, SolverError>)
        requires
            individual_params@.len() == n_params_spec(self.model.model_type),
            population_params.fixed_effects@.len() >= individual_params@.len(),
            square_spec(
                population_params.random_effects_variance@,
                population_params.fixed_effects@.len() as int,
            ),
        ensures
            r == ll_spec(
                self.model.model_type,
                *individual,
                individual_params@,
                population_params.fixed_effects@,
                crate::linalg::rows_view(population_params.random_effects_variance@),
                F_ONE,
            ),
    {
        match self.predict_concentrations(individual, individual_params) {
            Ok(predictions) => {
                let data_ll = data_log_likelihood(individual, &predictions);
                let prior_ll = prior_log_likelihood(individual_params, population_params);
                Ok(fp::add(data_ll, prior_ll))
            },
            Err(e) => Err(e),
        }
    }

    /// Runs the Metropolis-Hastings chain for the configured number of draws
    /// and returns the final state and its log-likelihood.  The result is
    /// the chain's value at the sampler's seeds, so two samplers built from
    /// the same seed return the same draw.
    pub fn sample_individual_parameters(
        &mut self,
        individual: &Individual,
        population_params: &ModelParameters,
        initial_params: &Vec<u64>,
    ) -> (r: Result<(Vec<u64>, u64), SolverError>)
        requires
            old(self).normals.pos_spec() == 0,
            old(self).uniforms.pos_spec() == 0,
            initial_params@.len() == n_params_spec(old(self).model.model_type),
            initial_params@.len() > 0,
            population_params.fixed_effects@.len() >= initial_params@.len(),
            square_spec(
                population_params.random_effects_variance@,
                population_params.fixed_effects@.len() as int,
            ),
            old(self).config.n_samples * initial_params@.len() < u64::MAX,
        ensures
            pair_view(r) == sample_spec(
                old(self).model.model_type,
                *individual,
                population_params.fixed_effects@,
                crate::linalg::rows_view(population_params.random_effects_variance@),
                F_ONE,
                old(self).config.step_size,
                old(self).normals.seed_spec(),
                old(self).uniforms.seed_spec(),
                initial_params@,
                old(self).config.n_samples as nat,
            ),
    {
        let ghost mt = self.model.model_type;
        let ghost pop_fe = population_params.fixed_effects@;
        let ghost pop_om = crate::linalg::rows_view(population_params.random_effects_variance@);
        let ghost ind = *individual;
        let ghost nseed = self.normals.seed_spec();
        let ghost useed = self.uniforms.seed_spec();
        let ghost step_sz = self.config.step_size;
        let ghost total = self.config.n_samples as nat;

        let mut current_params = crate::linalg::copy_vec(initial_params);
        let ll0 = self.log_likelihood(individual, &current_params, population_params);
        proof {
            assert(ll0 == ll_spec(mt, ind, initial_params@, pop_fe, pop_om, F_ONE));
        }
        let mut current_ll: u64 = match ll0 {
            Ok(v) => v,
            Err(e) => {
                proof {
                    assert(ll_spec(mt, ind, initial_params@, pop_fe, pop_om, F_ONE) == Err::<
                        u64,
                        SolverError,
                    >(e));
                    assert(sample_spec(
                        mt,
                        ind,
                        pop_fe,
                        pop_om,
                        F_ONE,
                        step_sz,
                        nseed,
                        useed,
                        initial_params@,
                        total,
                    ) == Err::<(Seq<u64>, u64), SolverError>(e));
                }
                return Err(e);
            },
        };

        let n_params = initial_params.len();
        let n_samples = self.config.n_samples;
        let mut s: usize = 0;
        while s < n_samples
            invariant
                0 <= s <= n_samples,
                n_samples == self.config.n_samples,
                n_params == initial_params@.len(),
                n_params > 0,
                n_samples * n_params < u64::MAX,
                current_params@.len() == n_params,
                self.model == old(self).model,
                self.solver == old(self).solver,
                self.config == old(self).config,
                mt == self.model.model_type,
                pop_fe == population_params.fixed_effects@,
                pop_om == crate::linalg::rows_view(population_params.random_effects_variance@),
                ind == *individual,
                initial_params@.len() == n_params_spec(mt),
                population_params.fixed_effects@.len() >= initial_params@.len(),
                square_spec(
                    population_params.random_effects_variance@,
                    population_params.fixed_effects@.len() as int,
                ),
                self.normals.seed_spec() == nseed,
                self.uniforms.seed_spec() == useed,
                nseed == old(self).normals.seed_spec(),
                useed == old(self).uniforms.seed_spec(),
                step_sz == self.config.step_size,
                total == n_samples as nat,
                self.normals.pos_spec() == s * n_params,
                self.uniforms.pos_spec() == s,
                mh_chain_spec(
                    mt,
                    ind,
                    pop_fe,
                    pop_om,
                    F_ONE,
                    step_sz,
                    nseed,
                    0,
                    useed,
                    0,
                    initial_params@,
                    sample_ll_start(mt, ind, pop_fe, pop_om, initial_params@),
                    total,
                ) == mh_chain_spec(
                    mt,
                    ind,
                    pop_fe,
                    pop_om,
                    F_ONE,
                    step_sz,
                    nseed,
                    self.normals.pos_spec() as int,
                    useed,
                    self.uniforms.pos_spec() as int,
                    current_params@,
                    current_ll,
                    (n_samples - s) as nat,
                ),
                ll_spec(mt, ind, initial_params@, pop_fe, pop_om, F_ONE) == Ok::<u64, SolverError>(
                    sample_ll_start(mt, ind, pop_fe, pop_om, initial_params@),
                ),
            decreases n_samples - s,
        {
            let ghost npos0 = self.normals.pos_spec() as int;
            let ghost cur0 = current_params@;
            let ghost cur_ll0 = current_ll;
            let ghost rem = (n_samples - s) as nat;
            let mut proposed_params: Vec<u64> = Vec::new();
            let mut j: usize = 0;
            while j < n_params
                invariant
                    0 <= j <= n_params,
                    n_params == current_params@.len(),
                    proposed_params@.len() == j,
                    self.normals.seed_spec() == nseed,
                    self.normals.pos_spec() == npos0 + j,
                    npos0 + n_params <= s * n_params + n_params,
                    s < n_samples,
                    n_samples * n_params < u64::MAX,
                    npos0 == s * n_params,
                    step_sz == self.config.step_size,
                    self.model == old(self).model,
                    self.solver == old(self).solver,
                    self.config == old(self).config,
                    self.uniforms.seed_spec() == useed,
                    self.uniforms.pos_spec() == s,
                    mt == self.model.model_type,
                    current_params@.len() == n_params,
                    cur0 == current_params@,
                    cur_ll0 == current_ll,
                    rem == (n_samples - s) as nat,
                    forall|t: int|
                        0 <= t < j ==> proposed_params@[t] == fmax(
                            fadd(current_params@[t], fmul(step_sz, normal_draw(nseed, npos0 + t))),
                            F_NEG_TEN,
                        ),
                decreases n_params - j,
            {
                proof {
                    assert(s * n_params + n_params <= n_samples * n_params) by (nonlinear_arith)
                        requires
                            s < n_samples,
                            n_params > 0,
                            0 <= s,
                    ;
                }
                let z = self.normals.next_normal();
                proposed_params.push(
                    fp::max(fp::add(current_params[j], fp::mul(self.config.step_size, z)), F_NEG_TEN),
                );
                j = j + 1;
            }
            proof {
                assert(proposed_params@ =~= proposal_spec(current_params@, step_sz, nseed, npos0));
            }

            let llp = self.log_likelihood(individual, &proposed_params, population_params);
            let proposed_ll: u64 = match llp {
                Ok(v) => v,
                Err(e) => {
                    proof {
                        assert(mh_chain_spec(
                            mt,
                            ind,
                            pop_fe,
                            pop_om,
                            F_ONE,
                            step_sz,
                            nseed,
                            npos0,
                            useed,
                            s as int,
                            cur0,
                            cur_ll0,
                            rem,
                        ) == Err::<(Seq<u64>, u64), SolverError>(e));
                        assert(mh_chain_spec(
                            mt,
                            ind,
                            pop_fe,
                            pop_om,
                            F_ONE,
                            step_sz,
                            nseed,
                            0,
                            useed,
                            0,
                            initial_params@,
                            sample_ll_start(mt, ind, pop_fe, pop_om, initial_params@),
                            total,
                        ) == Err::<(Seq<u64>, u64), SolverError>(e));
                        assert(sample_spec(
                            mt,
                            ind,
                            pop_fe,
                            pop_om,
                            F_ONE,
                            step_sz,
                            nseed,
                            useed,
                            initial_params@,
                            total,
                        ) == Err::<(Seq<u64>, u64), SolverError>(e));
                    }
                    return Err(e);
                },
            };

            let log_alpha = fp::sub(proposed_ll, current_ll);
            let alpha = fp::min(fp::exp(log_alpha), F_ONE);
            proof {
                assert(s < u64::MAX) by (nonlinear_arith)
                    requires
                        0 <= s < n_samples,
                        n_params >= 1,
                        n_samples * n_params < u64::MAX,
                ;
            }
            let u = self.uniforms.next_uniform();
            if fp::lt(u, alpha) {
                current_params = proposed_params;
                current_ll = proposed_ll;
            }
            s = s + 1;
            proof {
                assert(mh_chain_spec(
                    mt,
                    ind,
                    pop_fe,
                    pop_om,
                    F_ONE,
                    step_sz,
                    nseed,
                    npos0,
                    useed,
                    (s - 1) as int,
                    cur0,
                    cur_ll0,
                    rem,
                ) == mh_chain_spec(
                    mt,
                    ind,
                    pop_fe,
                    pop_om,
                    F_ONE,
                    step_sz,
                    nseed,
                    npos0 + n_params,
                    useed,
                    s as int,
                    current_params@,
                    current_ll,
                    (rem - 1) as nat,
                ));
                assert(self.normals.pos_spec() == s * n_params) by (nonlinear_arith)
                    requires
                        self.normals.pos_spec() == npos0 + n_params,
                        npos0 == (s - 1) * n_params,
                        s >= 1,
                ;
            }
        }
        Ok((current_params, current_ll))
    }
}

/// The starting log-likelihood of a chain whose initial evaluation
/// succeeded.
pub open spec fn sample_ll_start(
    mt: crate::models::ModelType,
    ind: Individual,
    pop_fe: Seq<u64>,
    pop_omega: Seq<Seq<u64>>,
    init: Seq<u64>,
) -> u64 {
    match ll_spec(mt, ind, init, pop_fe, pop_omega, F_ONE) {
        Ok(v) => v,
        Err(_) => F_ZERO,
    }
}

/// The model predictions at every observation of an individual under these
/// parameters: doses applied in order from an empty system at time zero,
/// then each observation answered by the observation function, integrating
/// between events with the stock solver settings.
pub fn predict_individual(
    model: &CompartmentModel,
    solver: &RungeKuttaSolver,
    individual: &Individual,
    params: &ModelParameters,
) -> (r: Result<Vec<u64>, SolverError>)
    requires
        params.fixed_effects@.len() >= n_params_spec(model.model_type),
    ensures
        vec_view(r) == predict_spec(model.model_type, params.fixed_effects@, *individual, F_ONE),
{
    let ghost mt = model.model_type;
    let ghost fe = params.fixed_effects@;
    let solver_config = SolverConfig::default();
    let n_comp = model.n_compartments();
    let mut state = ModelState::new(n_comp);
    let mut last_time: u64 = F_ZERO;
    let ghost y0 = initial_state_spec(mt);
    proof {
        assert(state.compartments@ =~= y0);
    }

    let n_doses = individual.dosing_records.len();
    for i in 0..n_doses
        invariant
            n_doses == individual.dosing_records@.len(),
            params.fixed_effects@ == fe,
            fe.len() >= n_params_spec(mt),
            mt == model.model_type,
            state.compartments@.len() == n_compartments_spec(mt),
            solver_config.max_step_size == F_ONE,
            y0 == initial_state_spec(mt),
            dose_phase_spec(mt, fe, individual.dosing_records@, 0, y0, F_ZERO, F_ONE)
                == dose_phase_spec(
                mt,
                fe,
                individual.dosing_records@,
                i as int,
                state.compartments@,
                last_time,
                F_ONE,
            ),
    {
        let dose = individual.dosing_records[i];
        if fp::lt(last_time, dose.time) {
            let res = solver.solve_to_time(
                model,
                params,
                last_time,
                dose.time,
                &state.compartments,
                &solver_config,
            );
            proof {
                crate::solver::lemma_solve_to_time_is_integ(
                    mt,
                    fe,
                    last_time,
                    dose.time,
                    state.compartments@,
                    F_ONE,
                    res,
                );
                crate::solver::lemma_integ_len(
                    mt,
                    fe,
                    last_time,
                    dose.time,
                    state.compartments@,
                    F_ONE,
                );
            }
            match res {
                Ok(final_state) => {
                    state.compartments = final_state;
                    state.time = dose.time;
                },
                Err(e) => {
                    proof {
                        lemma_dose_phase_err(
                            mt,
                            fe,
                            individual.dosing_records@,
                            i as int,
                            state.compartments@,
                            last_time,
                            F_ONE,
                            e,
                        );
                        assert(predict_spec(mt, fe, *individual, F_ONE) == Err::<
                            Seq<u64>,
                            SolverError,
                        >(e));
                    }
                    return Err(e);
                },
            }
        }
        state.add_dose(dose.compartment as usize, dose.amount);
        last_time = dose.time;
    }

    let ghost dose_result = dose_phase_spec(mt, fe, individual.dosing_records@, 0, y0, F_ZERO, F_ONE);
    proof {
        assert(dose_result == Ok::<(Seq<u64>, u64), SolverError>((state.compartments@, last_time)));
    }

    let mut predictions: Vec<u64> = Vec::new();
    let n_obs = individual.observations.len();
    for i in 0..n_obs
        invariant
            n_obs == individual.observations@.len(),
            params.fixed_effects@ == fe,
            fe.len() >= n_params_spec(mt),
            mt == model.model_type,
            state.compartments@.len() == n_compartments_spec(mt),
            solver_config.max_step_size == F_ONE,
            y0 == initial_state_spec(mt),
            dose_result == dose_phase_spec(mt, fe, individual.dosing_records@, 0, y0, F_ZERO, F_ONE),
            dose_result matches Ok(s0) && obs_phase_spec(
                mt,
                fe,
                individual.observations@,
                0,
                s0.0,
                s0.1,
                F_ONE,
                Seq::empty(),
            ) == obs_phase_spec(
                mt,
                fe,
                individual.observations@,
                i as int,
                state.compartments@,
                last_time,
                F_ONE,
                predictions@,
            ),
    {
        let obs = individual.observations[i];
        if fp::lt(last_time, obs.time) {
            let res = solver.solve_to_time(
                model,
                params,
                last_time,
                obs.time,
                &state.compartments,
                &solver_config,
            );
            proof {
                crate::solver::lemma_solve_to_time_is_integ(
                    mt,
                    fe,
                    last_time,
                    obs.time,
                    state.compartments@,
                    F_ONE,
                    res,
                );
                crate::solver::lemma_integ_len(
                    mt,
                    fe,
                    last_time,
                    obs.time,
                    state.compartments@,
                    F_ONE,
                );
            }
            match res {
                Ok(final_state) => {
                    state.compartments = final_state;
                    state.time = obs.time;
                    last_time = obs.time;
                },
                Err(e) => {
                    proof {
                        lemma_obs_phase_err(
                            mt,
                            fe,
                            individual.observations@,
                            i as int,
                            state.compartments@,
                            last_time,
                            F_ONE,
                            predictions@,
                            e,
                        );
                        assert(predict_spec(mt, fe, *individual, F_ONE) == Err::<
                            Seq<u64>,
                            SolverError,
                        >(e));
                    }
                    return Err(e);
                },
            }
        }
        let concentration = model.observation_function(&state, params, obs.compartment as usize);
        predictions.push(concentration);
    }

    Ok(predictions)
}

/// The data log-likelihood of predictions against an individual's
/// observations, under the log-normal error model with the fixed
/// proportional sigma 0.1.
pub fn data_log_likelihood(individual: &Individual, predictions: &Vec<u64>) -> (r: u64)
    ensures
        r == data_ll_from(individual.observations@, predictions@, 0, F_ZERO),
{
    let mut acc = F_ZERO;
    let n = individual.observations.len();
    let m = predictions.len();
    let bound = if n < m {
        n
    } else {
        m
    };
    for i in 0..bound
        invariant
            n == individual.observations@.len(),
            m == predictions@.len(),
            bound == if n < m {
                n
            } else {
                m
            },
            data_ll_from(individual.observations@, predictions@, 0, F_ZERO) == data_ll_from(
                individual.observations@,
                predictions@,
                i as int,
                acc,
            ),
    {
        let o = individual.observations[i];
        let p = predictions[i];
        if fp::lt(F_ZERO, o.value) && fp::lt(F_ZERO, p) {
            let q = fp::div(fp::sub(fp::ln(o.value), fp::ln(p)), F_TENTH);
            acc = fp::sub(acc, fp::mul(F_HALF, fp::mul(q, q)));
            acc = fp::sub(
                acc,
                fp::mul(F_HALF, fp::ln(fp::mul(fp::mul(F_TWO, F_PI), fp::mul(F_TENTH, F_TENTH)))),
            );
        }
    }
    acc
}

/// The prior log-likelihood of individual parameters under the population's
/// diagonal normal prior.
pub fn prior_log_likelihood(individual_params: &Vec<u64>, population_params: &ModelParameters) -> (r:
    u64)
    requires
        population_params.fixed_effects@.len() >= individual_params@.len(),
        square_spec(
            population_params.random_effects_variance@,
            population_params.fixed_effects@.len() as int,
        ),
    ensures
        r == prior_ll_spec(
            individual_params@,
            population_params.fixed_effects@,
            crate::linalg::rows_view(population_params.random_effects_variance@),
        ),
{
    let mut quadratic_form = F_ZERO;
    let mut det_omega = F_ONE;
    let n = individual_params.len();
    for i in 0..n
        invariant
            n == individual_params@.len(),
            population_params.fixed_effects@.len() >= n,
            square_spec(
                population_params.random_effects_variance@,
                population_params.fixed_effects@.len() as int,
            ),
            prior_accum(
                individual_params@,
                population_params.fixed_effects@,
                crate::linalg::rows_view(population_params.random_effects_variance@),
                0,
                F_ZERO,
                F_ONE,
            ) == prior_accum(
                individual_params@,
                population_params.fixed_effects@,
                crate::linalg::rows_view(population_params.random_effects_variance@),
                i as int,
                quadratic_form,
                det_omega,
            ),
    {
        let diff = fp::sub(individual_params[i], population_params.fixed_effects[i]);
        let variance = population_params.random_effects_variance[i][i];
        quadratic_form = fp::add(quadratic_form, fp::div(fp::mul(diff, diff), variance));
        det_omega = fp::mul(det_omega, variance);
    }
    let n_f = fp::from_u64(n as u64);
    fp::sub(
        fp::sub(
            fp::mul(fp::neg(F_HALF), quadratic_form),
            fp::mul(F_HALF, fp::ln(det_omega)),
        ),
        fp::mul(fp::mul(F_HALF, n_f), fp::ln(fp::mul(F_TWO, F_PI))),
    )
}


/// An observation step whose integration fails makes the whole observation
/// phase fail with that fault.
pub proof fn lemma_obs_phase_err(
    mt: crate::models::ModelType,
    fe: Seq<u64>,
    obs: Seq<Observation>,
    i: int,
    y: Seq<u64>,
    last: u64,
    max_step: u64,
    acc: Seq<u64>,
    e: SolverError,
)
    requires
        0 <= i < obs.len(),
        flt(last, obs[i].time),
        integ_spec(mt, fe, last, obs[i].time, y, max_step) == Err::<Seq<u64>, SolverError>(e),
    ensures
        obs_phase_spec(mt, fe, obs, i, y, last, max_step, acc) == Err::<Seq<u64>, SolverError>(e),
{
}

/// A dosing step whose integration fails makes the whole dose phase fail
/// with that fault.
pub proof fn lemma_dose_phase_err(
    mt: crate::models::ModelType,
    fe: Seq<u64>,
    doses: Seq<DosingRecord>,
    i: int,
    y: Seq<u64>,
    last: u64,
    max_step: u64,
    e: SolverError,
)
    requires
        0 <= i < doses.len(),
        flt(last, doses[i].time),
        integ_spec(mt, fe, last, doses[i].time, y, max_step) == Err::<Seq<u64>, SolverError>(e),
    ensures
        dose_phase_spec(mt, fe, doses, i, y, last, max_step) == Err::<(Seq<u64>, u64), SolverError>(
            e,
        ),
{
}



/// A chain step keeps the parameter dimension, so the chain's result has the
/// dimension of its start.
pub proof fn lemma_mh_chain_len(
    mt: crate::models::ModelType,
    ind: Individual,
    pop_fe: Seq<u64>,
    pop_omega: Seq<Seq<u64>>,
    max_step: u64,
    step: u64,
    nseed: u64,
    npos: int,
    useed: u64,
    upos: int,
    cur: Seq<u64>,
    cur_ll: u64,
    k: nat,
)
    ensures
        mh_chain_spec(mt, ind, pop_fe, pop_omega, max_step, step, nseed, npos, useed, upos, cur, cur_ll, k)
            matches Ok(p) ==> p.0.len() == cur.len(),
    decreases k,
{
    if k > 0 {
        let prop = proposal_spec(cur, step, nseed, npos);
        match ll_spec(mt, ind, prop, pop_fe, pop_omega, max_step) {
            Err(_) => {},
            Ok(pll) => {
                let alpha = fmin(fexp(fsub(pll, cur_ll)), F_ONE);
                let accept = flt(uniform_draw(useed, upos), alpha);
                if accept {
                    lemma_mh_chain_len(
                        mt, ind, pop_fe, pop_omega, max_step, step, nseed, npos + cur.len(),
                        useed, upos + 1, prop, pll, (k - 1) as nat,
                    );
                } else {
                    lemma_mh_chain_len(
                        mt, ind, pop_fe, pop_omega, max_step, step, nseed, npos + cur.len(),
                        useed, upos + 1, cur, cur_ll, (k - 1) as nat,
                    );
                }
            },
        }
    }
}

/// A successful sampling call returns parameters of the initial dimension.
pub proof fn lemma_sample_len(
    mt: crate::models::ModelType,
    ind: Individual,
    pop_fe: Seq<u64>,
    pop_omega: Seq<Seq<u64>>,
    max_step: u64,
    step: u64,
    nseed: u64,
    useed: u64,
    init: Seq<u64>,
    k: nat,
)
    ensures
        sample_spec(mt, ind, pop_fe, pop_omega, max_step, step, nseed, useed, init, k)
            matches Ok(p) ==> p.0.len() == init.len(),
{
    match ll_spec(mt, ind, init, pop_fe, pop_omega, max_step) {
        Err(_) => {},
        Ok(ll0) => {
            lemma_mh_chain_len(
                mt, ind, pop_fe, pop_omega, max_step, step, nseed, 0, useed, 0, init, ll0, k,
            );
        },
    }
}


} // verus!
