//! The FOCE estimator: per individual, a Newton-Raphson search for the
//! conditional mode of the random effects, then a plain averaging M-step,
//! with a finite-difference Fisher information matrix for standard errors.
//! The whole fit is deterministic and pinned to a spec-level recurrence.

use vstd::prelude::*;

use crate::config::EstimationConfig;
use crate::data::{Dataset, Individual};
use crate::fp;
use crate::fp::{
    f_abs_bits, f_from_u64, f_neg, fadd, fdiv, fln, flt, fmax, fmin, fmul, fsqrt, fsub,
    F_1E_NEG_6, F_FIVE, F_NEG_FIVE, F_NEG_INF, F_NEG_TEN, F_ONE, F_PI, F_TWO, F_ZERO,
};
use crate::linalg::{chol_solve_of, inverse_of, rows_view};
use crate::mcmc::predict_spec;
use crate::models::{
    n_params_spec, param_names_spec, square_spec, CompartmentModel, ModelParameters, ModelType,
};
use crate::saem::{col_sum_from, outer_sum_from};
use crate::solver::{RungeKuttaSolver, SolverError};

verus! {

/// Everything a FOCE run reports.
#[derive(Debug, Clone)]
pub struct FoceResults {
    pub fixed_effects: Vec<u64>,
    pub random_effects_variance: Vec<Vec<u64>>,
    pub residual_variance: u64,
    pub objective_function_value: u64,
    pub final_log_likelihood: u64,
    pub converged: bool,
    pub n_iterations: usize,
    pub individual_parameters: Vec<(i32, Vec<u64>)>,
    pub parameter_names: Vec<String>,
    pub gradient_norm: u64,
    pub hessian_condition_number: u64,
    pub covariance_matrix: Vec<Vec<u64>>,
    pub standard_errors: Vec<u64>,
}

impl FoceResults {
    /// Empty results: zero effects, zero covariance, unit residual variance.
    pub fn new(n_params: usize, parameter_names: Vec<String>) -> (r: Self)
        ensures
            r.fixed_effects@.len() == n_params,
            forall|i: int| 0 <= i < n_params ==> r.fixed_effects@[i] == F_ZERO,
            r.random_effects_variance@.len() == n_params,
            forall|i: int|
                0 <= i < n_params ==> (#[trigger] r.random_effects_variance@[i])@ == Seq::new(
                    n_params as nat,
                    |j: int| F_ZERO,
                ),
            r.residual_variance == F_ONE,
            r.objective_function_value == fp::F_INF,
            r.final_log_likelihood == F_NEG_INF,
            r.converged == false,
            r.n_iterations == 0,
            r.individual_parameters@.len() == 0,
            r.parameter_names == parameter_names,
            r.gradient_norm == fp::F_INF,
            r.hessian_condition_number == fp::F_INF,
            r.covariance_matrix@.len() == n_params,
            forall|i: int|
                0 <= i < n_params ==> (#[trigger] r.covariance_matrix@[i])@ == Seq::new(
                    n_params as nat,
                    |j: int| F_ZERO,
                ),
            r.standard_errors@.len() == n_params,
            forall|i: int| 0 <= i < n_params ==> r.standard_errors@[i] == F_ZERO,
    {
        let fixed_effects = crate::linalg::zeros(n_params);
        let random_effects_variance = crate::linalg::zero_mat(n_params);
        let covariance_matrix = crate::linalg::zero_mat(n_params);
        let standard_errors = crate::linalg::zeros(n_params);
        proof {
            assert forall|i: int| 0 <= i < n_params implies (
            #[trigger] random_effects_variance@[i])@ =~= Seq::new(n_params as nat, |j: int| F_ZERO)
            by {}
            assert forall|i: int| 0 <= i < n_params implies (#[trigger] covariance_matrix@[i])@
                =~= Seq::new(n_params as nat, |j: int| F_ZERO) by {}
        }
        FoceResults {
            fixed_effects,
            random_effects_variance,
            residual_variance: F_ONE,
            objective_function_value: fp::F_INF,
            final_log_likelihood: F_NEG_INF,
            converged: false,
            n_iterations: 0,
            individual_parameters: Vec::new(),
            parameter_names,
            gradient_norm: fp::F_INF,
            hessian_condition_number: fp::F_INF,
            covariance_matrix,
            standard_errors,
        }
    }
}

/// Fixed effects plus an individual's deviations, component by component.
pub open spec fn theta_plus_eta(fe: Seq<u64>, eta: Seq<u64>) -> Seq<u64> {
    Seq::new(eta.len(), |i: int| fadd(fe[i], eta[i]))
}

/// One individual's contribution to the objective from its data: per
/// observation/prediction pair, a scaled squared residual and the residual
/// variance's log-normalizer.
pub open spec fn obj_pairs_from(
    obs: Seq<crate::data::Observation>,
    preds: Seq<u64>,
    resid_var: u64,
    i: int,
    acc: u64,
) -> u64
    decreases obs.len() - i,
{
    if i < 0 || i >= obs.len() || i >= preds.len() {
        acc
    } else {
        let d = fsub(obs[i].value, preds[i]);
        let a1 = fadd(acc, fdiv(fmul(d, d), resid_var));
        let a2 = fadd(a1, fln(fmul(fmul(F_TWO, F_PI), resid_var)));
        obj_pairs_from(obs, preds, resid_var, i + 1, a2)
    }
}

/// One individual's prior penalty: per component, the scaled squared
/// deviation and that component's log-normalizer.
pub open spec fn obj_prior_from(eta: Seq<u64>, omega: Seq<Seq<u64>>, i: int, acc: u64) -> u64
    decreases eta.len() - i,
{
    if i < 0 || i >= eta.len() {
        acc
    } else {
        let a1 = fadd(acc, fdiv(fmul(eta[i], eta[i]), omega[i][i]));
        let a2 = fadd(a1, fln(fmul(fmul(F_TWO, F_PI), omega[i][i])));
        obj_prior_from(eta, omega, i + 1, a2)
    }
}

/// The total objective (minus twice the log-likelihood) over the individuals
/// from `j` on; an individual whose prediction fails stops the whole
/// computation with that fault.
pub open spec fn objective_from(
    mt: ModelType,
    inds: Seq<Individual>,
    etas: Seq<Seq<u64>>,
    fe: Seq<u64>,
    omega: Seq<Seq<u64>>,
    resid_var: u64,
    j: int,
    acc: u64,
) -> Result<u64, SolverError>
    decreases inds.len() - j,
{
    if j < 0 || j >= inds.len() {
        Ok(acc)
    } else {
        let ind_full = theta_plus_eta(fe, etas[j]);
        match predict_spec(mt, ind_full, inds[j], F_ONE) {
            Ok(preds) => {
                let a1 = obj_pairs_from(inds[j].observations@, preds, resid_var, 0, acc);
                let a2 = obj_prior_from(etas[j], omega, 0, a1);
                objective_from(mt, inds, etas, fe, omega, resid_var, j + 1, a2)
            },
            Err(e) => Err(e),
        }
    }
}

/// The least of four lengths: where the gradient fold stops.
pub open spec fn min4_spec(a: int, b: int, c: int, d: int) -> int {
    let m1 = if a < b {
        a
    } else {
        b
    };
    let m2 = if m1 < c {
        m1
    } else {
        c
    };
    if m2 < d {
        m2
    } else {
        d
    }
}

/// The central finite-difference gradient and diagonal Hessian of one
/// individual's conditional objective at `eta`, or the integration fault
/// that stopped a prediction.  The flat Hessian is row-major with only the
/// diagonal filled.
pub open spec fn derivs_spec(
    mt: ModelType,
    ind: Individual,
    fe: Seq<u64>,
    omega: Seq<Seq<u64>>,
    resid_var: u64,
    eta: Seq<u64>,
) -> Result<(Seq<u64>, Seq<u64>), SolverError> {
    let n = eta.len() as int;
    match predict_spec(mt, theta_plus_eta(fe, eta), ind, F_ONE) {
        Ok(preds) => derivs_loop(mt, ind, fe, omega, resid_var, eta, preds, 0, Seq::empty(),
            Seq::new((n * n) as nat, |t: int| F_ZERO)),
        Err(e) => Err(e),
    }
}

/// The gradient components from index `i` on, each from predictions at the
/// component moved up and down by the step.
pub open spec fn derivs_loop(
    mt: ModelType,
    ind: Individual,
    fe: Seq<u64>,
    omega: Seq<Seq<u64>>,
    resid_var: u64,
    eta: Seq<u64>,
    preds: Seq<u64>,
    i: int,
    grad: Seq<u64>,
    hess: Seq<u64>,
) -> Result<(Seq<u64>, Seq<u64>), SolverError>
    decreases eta.len() - i,
{
    let n = eta.len() as int;
    if i < 0 || i >= eta.len() {
        Ok((grad, hess))
    } else {
        let eta_plus = eta.update(i, fadd(eta[i], F_1E_NEG_6));
        let eta_minus = eta.update(i, fsub(eta[i], F_1E_NEG_6));
        match predict_spec(mt, theta_plus_eta(fe, eta_plus), ind, F_ONE) {
            Ok(preds_plus) => match predict_spec(mt, theta_plus_eta(fe, eta_minus), ind, F_ONE) {
                Ok(preds_minus) => {
                    let grad_data = grad_data_from(
                        ind.observations@,
                        preds,
                        preds_plus,
                        preds_minus,
                        resid_var,
                        0,
                        F_ZERO,
                    );
                    let grad_prior = fdiv(f_neg(eta[i]), omega[i][i]);
                    let hess_data = hess_data_from(preds_plus, preds_minus, resid_var, 0, F_ZERO);
                    let hess_prior = fdiv(f_neg(F_ONE), omega[i][i]);
                    derivs_loop(
                        mt,
                        ind,
                        fe,
                        omega,
                        resid_var,
                        eta,
                        preds,
                        i + 1,
                        grad.push(fadd(grad_data, grad_prior)),
                        hess.update(i * n + i, fadd(hess_data, hess_prior)),
                    )
                },
                Err(e) => Err(e),
            },
            Err(e) => Err(e),
        }
    }
}

/// The data term of one gradient component: residual times the central
/// difference of the predictions over the residual variance, summed over the
/// pairs.
pub open spec fn grad_data_from(
    obs: Seq<crate::data::Observation>,
    preds: Seq<u64>,
    preds_plus: Seq<u64>,
    preds_minus: Seq<u64>,
    resid_var: u64,
    k: int,
    acc: u64,
) -> u64
    decreases obs.len() - k,
{
    if k < 0 || k >= obs.len() || k >= preds.len() || k >= preds_plus.len() || k
        >= preds_minus.len() {
        acc
    } else {
        let residual = fsub(obs[k].value, preds[k]);
        let dpred = fdiv(fsub(preds_plus[k], preds_minus[k]), fmul(fp::F_TWO, F_1E_NEG_6));
        grad_data_from(
            obs,
            preds,
            preds_plus,
            preds_minus,
            resid_var,
            k + 1,
            fadd(acc, fdiv(fmul(residual, dpred), resid_var)),
        )
    }
}

/// The data term of one diagonal Hessian entry: minus the squared central
/// difference over the residual variance, summed over the pairs.
pub open spec fn hess_data_from(
    preds_plus: Seq<u64>,
    preds_minus: Seq<u64>,
    resid_var: u64,
    k: int,
    acc: u64,
) -> u64
    decreases preds_plus.len() - k,
{
    if k < 0 || k >= preds_plus.len() || k >= preds_minus.len() {
        acc
    } else {
        let dpred = fdiv(fsub(preds_plus[k], preds_minus[k]), fmul(fp::F_TWO, F_1E_NEG_6));
        hess_data_from(
            preds_plus,
            preds_minus,
            resid_var,
            k + 1,
            fsub(acc, fdiv(fmul(dpred, dpred), resid_var)),
        )
    }
}

/// A flat row-major Hessian with `1e-6` added to the diagonal cells from
/// index `i` on.
pub open spec fn regularize_from(hess: Seq<u64>, n: int, i: int) -> Seq<u64>
    decreases n - i,
{
    if i < 0 || i >= n {
        hess
    } else {
        regularize_from(hess.update(i * n + i, fadd(hess[i * n + i], F_1E_NEG_6)), n, i + 1)
    }
}

/// A flat row-major Hessian with `1e-6` added to its diagonal.
pub open spec fn regularize_spec(hess: Seq<u64>, n: int) -> Seq<u64> {
    regularize_from(hess, n, 0)
}

/// The squared Euclidean norm fold of a vector.
pub open spec fn norm_sq_from(v: Seq<u64>, i: int, acc: u64) -> u64
    decreases v.len() - i,
{
    if i < 0 || i >= v.len() {
        acc
    } else {
        norm_sq_from(v, i + 1, fadd(acc, fmul(v[i], v[i])))
    }
}

/// Every component clamped into `[-5, 5]` after a Newton step.
pub open spec fn newton_update_spec(eta: Seq<u64>, step: Seq<u64>) -> Seq<u64> {
    Seq::new(eta.len(), |i: int| fmin(fmax(fsub(eta[i], fmul(F_ONE, step[i])), F_NEG_FIVE), F_FIVE))
}

/// The Newton-Raphson search with `k` inner iterations left: stop early when
/// the regularized Hessian is not positive definite, and after a step when
/// the gradient norm is small.
pub open spec fn newton_spec(
    mt: ModelType,
    ind: Individual,
    fe: Seq<u64>,
    omega: Seq<Seq<u64>>,
    resid_var: u64,
    eta: Seq<u64>,
    k: nat,
) -> Result<Seq<u64>, SolverError>
    decreases k,
{
    if k == 0 {
        Ok(eta)
    } else {
        match derivs_spec(mt, ind, fe, omega, resid_var, eta) {
            Err(e) => Err(e),
            Ok(gh) => {
                let n = eta.len() as int;
                match chol_solve_of(regularize_spec(gh.1, n), n, gh.0) {
                    Some(step) => {
                        let eta2 = newton_update_spec(eta, step);
                        if flt(fsqrt(norm_sq_from(gh.0, 0, F_ZERO)), F_1E_NEG_6) {
                            Ok(eta2)
                        } else {
                            newton_spec(mt, ind, fe, omega, resid_var, eta2, (k - 1) as nat)
                        }
                    },
                    None => Ok(eta),
                }
            },
        }
    }
}


/// The derivative computation keeps its dimensions: one gradient entry per
/// component, the Hessian flat square.
pub proof fn lemma_derivs_loop_len(
    mt: ModelType,
    ind: Individual,
    fe: Seq<u64>,
    omega: Seq<Seq<u64>>,
    resid_var: u64,
    eta: Seq<u64>,
    preds: Seq<u64>,
    i: int,
    grad: Seq<u64>,
    hess: Seq<u64>,
)
    requires
        0 <= i <= eta.len(),
        hess.len() == eta.len() * eta.len(),
    ensures
        derivs_loop(mt, ind, fe, omega, resid_var, eta, preds, i, grad, hess) matches Ok(gh)
            ==> gh.0.len() == grad.len() + eta.len() - i && gh.1.len() == hess.len(),
    decreases eta.len() - i,
{
    if i < eta.len() {
        let n = eta.len() as int;
        assert(i * n + i < n * n) by (nonlinear_arith)
            requires
                0 <= i < n,
        ;
        let eta_plus = eta.update(i, fadd(eta[i], F_1E_NEG_6));
        let eta_minus = eta.update(i, fsub(eta[i], F_1E_NEG_6));
        match predict_spec(mt, theta_plus_eta(fe, eta_plus), ind, F_ONE) {
            Ok(preds_plus) => match predict_spec(mt, theta_plus_eta(fe, eta_minus), ind, F_ONE) {
                Ok(preds_minus) => {
                    let grad_data = grad_data_from(
                        ind.observations@,
                        preds,
                        preds_plus,
                        preds_minus,
                        resid_var,
                        0,
                        F_ZERO,
                    );
                    let grad_prior = fdiv(f_neg(eta[i]), omega[i][i]);
                    let hess_data = hess_data_from(preds_plus, preds_minus, resid_var, 0, F_ZERO);
                    let hess_prior = fdiv(f_neg(F_ONE), omega[i][i]);
                    lemma_derivs_loop_len(
                        mt,
                        ind,
                        fe,
                        omega,
                        resid_var,
                        eta,
                        preds,
                        i + 1,
                        grad.push(fadd(grad_data, grad_prior)),
                        hess.update(i * n + i, fadd(hess_data, hess_prior)),
                    );
                },
                Err(_) => {},
            },
            Err(_) => {},
        }
    }
}

/// The dimensions of a successful derivative computation.
pub proof fn lemma_derivs_len(
    mt: ModelType,
    ind: Individual,
    fe: Seq<u64>,
    omega: Seq<Seq<u64>>,
    resid_var: u64,
    eta: Seq<u64>,
)
    ensures
        derivs_spec(mt, ind, fe, omega, resid_var, eta) matches Ok(gh) ==> gh.0.len() == eta.len()
            && gh.1.len() == eta.len() * eta.len(),
{
    let n = eta.len() as int;
    match predict_spec(mt, theta_plus_eta(fe, eta), ind, F_ONE) {
        Ok(preds) => {
            lemma_derivs_loop_len(
                mt,
                ind,
                fe,
                omega,
                resid_var,
                eta,
                preds,
                0,
                Seq::empty(),
                Seq::new((n * n) as nat, |t: int| F_ZERO),
            );
        },
        Err(_) => {},
    }
}

/// The E-step over the individuals from `j` on: each individual's deviations
/// move to the Newton-Raphson result.
pub open spec fn foce_estep_from(
    mt: ModelType,
    inds: Seq<Individual>,
    fe: Seq<u64>,
    omega: Seq<Seq<u64>>,
    resid_var: u64,
    etas: Seq<Seq<u64>>,
    j: int,
) -> Result<Seq<Seq<u64>>, SolverError>
    decreases inds.len() - j,
{
    if j < 0 || j >= inds.len() {
        Ok(etas)
    } else {
        match newton_spec(mt, inds[j], fe, omega, resid_var, etas[j], 20) {
            Ok(eta2) => foce_estep_from(mt, inds, fe, omega, resid_var, etas.update(j, eta2), j + 1),
            Err(e) => Err(e),
        }
    }
}

/// The residual numerator and pair count over the individuals from `j` on,
/// under `theta + eta` predictions; a failed prediction stops the update.
pub open spec fn foce_resid_from(
    mt: ModelType,
    inds: Seq<Individual>,
    etas: Seq<Seq<u64>>,
    fe: Seq<u64>,
    j: int,
    racc: u64,
    count: int,
) -> Result<(u64, int), SolverError>
    decreases inds.len() - j,
{
    if j < 0 || j >= inds.len() {
        Ok((racc, count))
    } else {
        match predict_spec(mt, theta_plus_eta(fe, etas[j]), inds[j], F_ONE) {
            Ok(preds) => {
                let obs = inds[j].observations@;
                let pairs = if obs.len() < preds.len() {
                    obs.len() as int
                } else {
                    preds.len() as int
                };
                foce_resid_from(
                    mt,
                    inds,
                    etas,
                    fe,
                    j + 1,
                    crate::saem::resid_pairs_from(obs, preds, 0, racc),
                    count + pairs,
                )
            },
            Err(e) => Err(e),
        }
    }
}

/// What the FOCE M-step produces: the plain mean of `theta + eta` (the
/// stored deviations) clamped at -10, the empirical covariance of the
/// deviations around it, the mean squared residual, and the new objective.
pub struct FoceMStep {
    pub fe: Seq<u64>,
    pub omega: Seq<Seq<u64>>,
    pub resid: u64,
    pub objective: u64,
}

/// The M-step of one FOCE iteration, or the fault that stopped it.
pub open spec fn foce_mstep_spec(
    mt: ModelType,
    inds: Seq<Individual>,
    etas: Seq<Seq<u64>>,
    n_params: int,
    old_resid: u64,
    omega_old: Seq<Seq<u64>>,
) -> Result<FoceMStep, SolverError> {
    let n_f = f_from_u64(inds.len() as u64);
    let fe2 = Seq::new(
        n_params as nat,
        |i: int| fmax(fdiv(col_sum_from(etas, i, 0, F_ZERO), n_f), F_NEG_TEN),
    );
    let omega2 = Seq::new(
        n_params as nat,
        |i: int| Seq::new(
            n_params as nat,
            |j: int| fdiv(outer_sum_from(etas, fe2, i, j, 0, F_ZERO), n_f),
        ),
    );
    match foce_resid_from(mt, inds, etas, fe2, 0, F_ZERO, 0) {
        Err(e) => Err(e),
        Ok(rp) => {
            let resid2 = if rp.1 > 0 {
                fdiv(rp.0, f_from_u64(rp.1 as u64))
            } else {
                old_resid
            };
            match objective_from(mt, inds, etas, fe2, omega2, resid2, 0, F_ZERO) {
                Err(e) => Err(e),
                Ok(objective) => Ok(FoceMStep { fe: fe2, omega: omega2, resid: resid2, objective }),
            }
        },
    }
}

/// The whole evolving state of a FOCE run.
pub struct FoceState {
    pub fe: Seq<u64>,
    pub omega: Seq<Seq<u64>>,
    pub resid: u64,
    pub etas: Seq<Seq<u64>>,
    pub prev_objective: u64,
    pub converged: bool,
    pub done: bool,
}

/// One outer FOCE iteration: E-step, M-step, and the relative-change
/// convergence test.
pub open spec fn foce_step_spec(
    mt: ModelType,
    inds: Seq<Individual>,
    cfg: EstimationConfig,
    st: FoceState,
    n_params: int,
) -> Result<FoceState, SolverError> {
    match foce_estep_from(mt, inds, st.fe, st.omega, st.resid, st.etas, 0) {
        Err(e) => Err(e),
        Ok(etas2) => match foce_mstep_spec(mt, inds, etas2, n_params, st.resid, st.omega) {
            Err(e) => Err(e),
            Ok(m) => {
                let change = f_abs_bits(fsub(st.prev_objective, m.objective));
                let relative = fdiv(change, f_abs_bits(st.prev_objective));
                let hit = flt(relative, cfg.foce_tolerance);
                Ok(
                    FoceState {
                        fe: m.fe,
                        omega: m.omega,
                        resid: m.resid,
                        etas: etas2,
                        prev_objective: if hit {
                            st.prev_objective
                        } else {
                            m.objective
                        },
                        converged: if hit {
                            true
                        } else {
                            st.converged
                        },
                        done: if hit {
                            true
                        } else {
                            st.done
                        },
                    },
                )
            },
        },
    }
}

/// The starting state: default parameters, every individual's deviations at
/// the default fixed effects, an infinite previous objective.
pub open spec fn foce_init_spec(mt: ModelType, inds: Seq<Individual>) -> FoceState {
    let n = n_params_spec(mt) as int;
    FoceState {
        fe: crate::models::default_fixed_spec(mt),
        omega: Seq::new(
            n as nat,
            |i: int| Seq::new(
                n as nat,
                |j: int| if i == j {
                    crate::models::default_omega_diag_spec(mt)[i]
                } else {
                    F_ZERO
                },
            ),
        ),
        resid: fp::F_POINT_01,
        etas: Seq::new(inds.len(), |j: int| crate::models::default_fixed_spec(mt)),
        prev_objective: fp::F_INF,
        converged: false,
        done: false,
    }
}

/// The state after `k` outer iterations, frozen once converged.
pub open spec fn foce_iter_spec(
    mt: ModelType,
    inds: Seq<Individual>,
    cfg: EstimationConfig,
    k: nat,
) -> Result<FoceState, SolverError>
    decreases k,
{
    if k == 0 {
        Ok(foce_init_spec(mt, inds))
    } else {
        match foce_iter_spec(mt, inds, cfg, (k - 1) as nat) {
            Err(e) => Err(e),
            Ok(st) => {
                if st.done {
                    Ok(st)
                } else {
                    foce_step_spec(mt, inds, cfg, st, n_params_spec(mt) as int)
                }
            },
        }
    }
}

/// Once a run is done, later iterations change nothing.
pub proof fn lemma_foce_freeze(
    mt: ModelType,
    inds: Seq<Individual>,
    cfg: EstimationConfig,
    k: nat,
    n: nat,
)
    requires
        k <= n,
        foce_iter_spec(mt, inds, cfg, k) matches Ok(st) && st.done,
    ensures
        foce_iter_spec(mt, inds, cfg, n) == foce_iter_spec(mt, inds, cfg, k),
    decreases n,
{
    if n > k {
        lemma_foce_freeze(mt, inds, cfg, k, (n - 1) as nat);
    }
}

/// An iteration that fails stops every later iteration with the same fault.
pub proof fn lemma_foce_err_freeze(
    mt: ModelType,
    inds: Seq<Individual>,
    cfg: EstimationConfig,
    k: nat,
    n: nat,
    e: SolverError,
)
    requires
        k <= n,
        foce_iter_spec(mt, inds, cfg, k) == Err::<FoceState, SolverError>(e),
    ensures
        foce_iter_spec(mt, inds, cfg, n) == Err::<FoceState, SolverError>(e),
    decreases n,
{
    if n > k {
        lemma_foce_err_freeze(mt, inds, cfg, k, (n - 1) as nat, e);
    }
}


/// How a FOCE results value reports a final state with its covariance
/// estimates.
pub open spec fn foce_results_match(
    mt: ModelType,
    inds: Seq<Individual>,
    cfg: EstimationConfig,
    st: FoceState,
    objective: u64,
    cov: Seq<Seq<u64>>,
    res: FoceResults,
) -> bool {
    &&& res.fixed_effects@ == st.fe
    &&& rows_view(res.random_effects_variance@) == st.omega
    &&& res.residual_variance == st.resid
    &&& res.objective_function_value == objective
    &&& res.final_log_likelihood == fdiv(f_neg(objective), F_TWO)
    &&& res.converged == st.converged
    &&& res.n_iterations == cfg.foce_max_iterations
    &&& res.individual_parameters@.len() == inds.len()
    &&& forall|j: int|
        0 <= j < inds.len() ==> (#[trigger] res.individual_parameters@[j]).0 == inds[j].id
            && res.individual_parameters@[j].1@ == st.etas[j]
    &&& res.parameter_names@.len() == n_params_spec(mt)
    &&& forall|i: int|
        0 <= i < res.parameter_names@.len() ==> (#[trigger] res.parameter_names@[i])@
            == param_names_spec(mt)[i]
    &&& rows_view(res.covariance_matrix@) == cov
    &&& res.standard_errors@.len() == n_params_spec(mt)
    &&& forall|i: int|
        0 <= i < res.standard_errors@.len() ==> res.standard_errors@[i] == fsqrt(cov[i][i])
    &&& res.gradient_norm == fp::F_INF
    &&& res.hessian_condition_number == fp::F_INF
}

/// The Fisher information cell from four objective evaluations, or the
/// fault that stopped one of them.
pub open spec fn fisher_cell_spec(
    mt: ModelType,
    inds: Seq<Individual>,
    etas: Seq<Seq<u64>>,
    fe: Seq<u64>,
    omega: Seq<Seq<u64>>,
    resid_var: u64,
    i: int,
    j: int,
) -> Result<u64, SolverError> {
    let h = F_1E_NEG_6;
    let fe_ij = fe.update(i, fadd(fe[i], h)).update(j, fadd(fe.update(i, fadd(fe[i], h))[j], h));
    let fe_i = fe.update(i, fadd(fe[i], h));
    let fe_j = fe.update(j, fadd(fe[j], h));
    match (
        objective_from(mt, inds, etas, fe_ij, omega, resid_var, 0, F_ZERO),
        objective_from(mt, inds, etas, fe_i, omega, resid_var, 0, F_ZERO),
        objective_from(mt, inds, etas, fe_j, omega, resid_var, 0, F_ZERO),
        objective_from(mt, inds, etas, fe, omega, resid_var, 0, F_ZERO),
    ) {
        (Ok(oij), Ok(oi), Ok(oj), Ok(ob)) => Ok(
            fdiv(fadd(fsub(fsub(oij, oi), oj), ob), fmul(h, h)),
        ),
        (Err(e), _, _, _) => Err(e),
        (_, Err(e), _, _) => Err(e),
        (_, _, Err(e), _) => Err(e),
        (_, _, _, Err(e)) => Err(e),
    }
}

/// The FOCE estimator: a model, a configuration, and the fixed-step solver.
pub struct FoceEstimator {
    pub model: CompartmentModel,
    pub config: EstimationConfig,
    pub solver: RungeKuttaSolver,
}

impl FoceEstimator {
    /// An estimator over this model and configuration.
    pub fn new(model: CompartmentModel, config: EstimationConfig) -> (r: Self)
        ensures
            r.model == model,
            r.config == config,
    {
        FoceEstimator { model, config, solver: RungeKuttaSolver::new() }
    }

    /// The model the estimator fits.
    pub fn model(&self) -> (r: &CompartmentModel)
        ensures
            r == self.model,
    {
        &self.model
    }

    /// The model predictions at every observation of an individual under
    /// these parameters.
    fn predict_individual(&self, individual: &Individual, params: &ModelParameters) -> (r: Result<
        Vec<u64>,
        SolverError,
    >)
        requires
            params.fixed_effects@.len() >= n_params_spec(self.model.model_type),
        ensures
            crate::mcmc::vec_view(r) == predict_spec(
                self.model.model_type,
                params.fixed_effects@,
                *individual,
                F_ONE,
            ),
    {
        crate::mcmc::predict_individual(&self.model, &self.solver, individual, params)
    }

    /// The total objective under these deviations and population values.
    fn calculate_objective_function(
        &self,
        dataset: &Dataset,
        individual_params: &Vec<Vec<u64>>,
        fe: &Vec<u64>,
        omega: &Vec<Vec<u64>>,
        resid_var: u64,
    ) -> (r: Result<u64, SolverError>)
        requires
            individual_params@.len() == dataset.individuals@.len(),
            fe@.len() == n_params_spec(self.model.model_type),
            forall|t: int|
                0 <= t < individual_params@.len() ==> (#[trigger] individual_params@[t])@.len()
                    == n_params_spec(self.model.model_type),
            square_spec(omega@, n_params_spec(self.model.model_type) as int),
        ensures
            r == objective_from(
                self.model.model_type,
                dataset.individuals@,
                rows_view(individual_params@),
                fe@,
                rows_view(omega@),
                resid_var,
                0,
                F_ZERO,
            ),
    {
        let ghost mt = self.model.model_type;
        let ghost inds = dataset.individuals@;
        let ghost etas = rows_view(individual_params@);
        let ghost om = rows_view(omega@);
        let n_params = fe.len();
        let n_individuals = dataset.individuals.len();
        let mut acc = F_ZERO;
        for j in 0..n_individuals
            invariant
                n_individuals == inds.len(),
                inds == dataset.individuals@,
                individual_params@.len() == inds.len(),
                etas == rows_view(individual_params@),
                om == rows_view(omega@),
                mt == self.model.model_type,
                n_params == n_params_spec(mt),
                fe@.len() == n_params,
                forall|t: int|
                    0 <= t < individual_params@.len() ==> (
                    #[trigger] individual_params@[t])@.len() == n_params,
                square_spec(omega@, n_params as int),
                objective_from(mt, inds, etas, fe@, om, resid_var, 0, F_ZERO) == objective_from(
                    mt,
                    inds,
                    etas,
                    fe@,
                    om,
                    resid_var,
                    j as int,
                    acc,
                ),
        {
            let individual = &dataset.individuals[j];
            let mut ind_full: Vec<u64> = Vec::new();
            for i in 0..n_params
                invariant
                    n_params == fe@.len(),
                    j < individual_params@.len(),
                    individual_params@[j as int]@.len() == n_params,
                    ind_full@.len() == i,
                    forall|t: int|
                        0 <= t < i ==> ind_full@[t] == fadd(
                            fe@[t],
                            individual_params@[j as int]@[t],
                        ),
            {
                ind_full.push(fp::add(fe[i], individual_params[j][i]));
            }
            proof {
                assert(ind_full@ =~= theta_plus_eta(fe@, etas[j as int]));
            }
            let mut temp_params = self.model.default_parameters();
            temp_params.fixed_effects = ind_full;
            let res = self.predict_individual(individual, &temp_params);
            match res {
                Ok(predictions) => {
                    let n_obs = individual.observations.len();
                    let n_pred = predictions.len();
                    let pairs = if n_obs < n_pred {
                        n_obs
                    } else {
                        n_pred
                    };
                    let ghost acc0 = acc;
                    let mut k: usize = 0;
                    while k < pairs
                        invariant
                            pairs <= individual.observations@.len(),
                            pairs <= predictions@.len(),
                            0 <= k <= pairs,
                            pairs == if individual.observations@.len() < predictions@.len() {
                                individual.observations@.len()
                            } else {
                                predictions@.len()
                            },
                            obj_pairs_from(
                                individual.observations@,
                                predictions@,
                                resid_var,
                                0,
                                acc0,
                            ) == obj_pairs_from(
                                individual.observations@,
                                predictions@,
                                resid_var,
                                k as int,
                                acc,
                            ),
                        decreases pairs - k,
                    {
                        let d = fp::sub(individual.observations[k].value, predictions[k]);
                        acc = fp::add(acc, fp::div(fp::mul(d, d), resid_var));
                        acc = fp::add(acc, fp::ln(fp::mul(fp::mul(F_TWO, F_PI), resid_var)));
                        k = k + 1;
                    }
                    let ghost acc1 = acc;
                    for i in 0..n_params
                        invariant
                            n_params == fe@.len(),
                            j < individual_params@.len(),
                            individual_params@[j as int]@.len() == n_params,
                            etas == rows_view(individual_params@),
                            om == rows_view(omega@),
                            square_spec(omega@, n_params as int),
                            obj_prior_from(etas[j as int], om, 0, acc1) == obj_prior_from(
                                etas[j as int],
                                om,
                                i as int,
                                acc,
                            ),
                    {
                        let e = individual_params[j][i];
                        acc = fp::add(acc, fp::div(fp::mul(e, e), omega[i][i]));
                        acc = fp::add(acc, fp::ln(fp::mul(fp::mul(F_TWO, F_PI), omega[i][i])));
                    }
                },
                Err(e) => {
                    return Err(e);
                },
            }
        }
        Ok(acc)
    }
}


impl FoceEstimator {
    /// The finite-difference gradient and diagonal Hessian of one
    /// individual's conditional objective.
    #[verifier::rlimit(60)]
    fn calculate_individual_derivatives(
        &self,
        individual: &Individual,
        fe: &Vec<u64>,
        omega: &Vec<Vec<u64>>,
        resid_var: u64,
        eta: &Vec<u64>,
    ) -> (r: Result<(Vec<u64>, Vec<u64>), SolverError>)
        requires
            eta@.len() == n_params_spec(self.model.model_type),
            fe@.len() == n_params_spec(self.model.model_type),
            square_spec(omega@, n_params_spec(self.model.model_type) as int),
        ensures
            match r {
                Ok(gh) => derivs_spec(
                    self.model.model_type,
                    *individual,
                    fe@,
                    rows_view(omega@),
                    resid_var,
                    eta@,
                ) == Ok::<(Seq<u64>, Seq<u64>), SolverError>((gh.0@, gh.1@)),
                Err(e) => derivs_spec(
                    self.model.model_type,
                    *individual,
                    fe@,
                    rows_view(omega@),
                    resid_var,
                    eta@,
                ) == Err::<(Seq<u64>, Seq<u64>), SolverError>(e),
            },
    {
        let ghost mt = self.model.model_type;
        let ghost om = rows_view(omega@);
        let n_params = eta.len();

        let mut ind_full: Vec<u64> = Vec::new();
        for i in 0..n_params
            invariant
                n_params == eta@.len(),
                fe@.len() == n_params,
                ind_full@.len() == i,
                forall|t: int| 0 <= t < i ==> ind_full@[t] == fadd(fe@[t], eta@[t]),
        {
            ind_full.push(fp::add(fe[i], eta[i]));
        }
        proof {
            assert(ind_full@ =~= theta_plus_eta(fe@, eta@));
        }
        let mut temp_params = self.model.default_parameters();
        temp_params.fixed_effects = ind_full;
        let predictions = match self.predict_individual(individual, &temp_params) {
            Ok(p) => p,
            Err(e) => {
                return Err(e);
            },
        };

        proof {
            assert(n_params <= 6);
            assert(n_params * n_params <= 36) by (nonlinear_arith)
                requires
                    0 <= n_params <= 6,
            ;
        }
        let mut gradient: Vec<u64> = Vec::new();
        let mut hessian: Vec<u64> = crate::linalg::zeros(n_params * n_params);
        proof {
            assert(hessian@ =~= Seq::new(
                ((n_params * n_params) as int) as nat,
                |t: int| F_ZERO,
            ));
        }
        let mut i: usize = 0;
        while i < n_params
            invariant
                n_params == eta@.len(),
                fe@.len() == n_params,
                square_spec(omega@, n_params as int),
                om == rows_view(omega@),
                mt == self.model.model_type,
                n_params == n_params_spec(mt),
                0 <= i <= n_params,
                gradient@.len() == i,
                hessian@.len() == n_params * n_params,
                crate::mcmc::vec_view(Ok::<Vec<u64>, SolverError>(predictions))
                    == predict_spec(mt, theta_plus_eta(fe@, eta@), *individual, F_ONE),
                derivs_loop(
                    mt,
                    *individual,
                    fe@,
                    om,
                    resid_var,
                    eta@,
                    predictions@,
                    0,
                    Seq::empty(),
                    Seq::new(((n_params * n_params) as int) as nat, |t: int| F_ZERO),
                ) == derivs_loop(
                    mt,
                    *individual,
                    fe@,
                    om,
                    resid_var,
                    eta@,
                    predictions@,
                    i as int,
                    gradient@,
                    hessian@,
                ),
            decreases n_params - i,
        {
            let mut eta_plus = crate::linalg::copy_vec(eta);
            eta_plus.set(i, fp::add(eta[i], F_1E_NEG_6));
            let mut params_plus: Vec<u64> = Vec::new();
            for t in 0..n_params
                invariant
                    n_params == eta@.len(),
                    fe@.len() == n_params,
                    i < n_params,
                    eta_plus@ == eta@.update(i as int, fadd(eta@[i as int], F_1E_NEG_6)),
                    params_plus@.len() == t,
                    forall|u: int| 0 <= u < t ==> params_plus@[u] == fadd(fe@[u], eta_plus@[u]),
            {
                params_plus.push(fp::add(fe[t], eta_plus[t]));
            }
            proof {
                assert(params_plus@ =~= theta_plus_eta(
                    fe@,
                    eta@.update(i as int, fadd(eta@[i as int], F_1E_NEG_6)),
                ));
            }
            let mut temp_plus = self.model.default_parameters();
            temp_plus.fixed_effects = params_plus;
            let predictions_plus = match self.predict_individual(individual, &temp_plus) {
                Ok(p) => p,
                Err(e) => {
                    return Err(e);
                },
            };

            let mut eta_minus = crate::linalg::copy_vec(eta);
            eta_minus.set(i, fp::sub(eta[i], F_1E_NEG_6));
            let mut params_minus: Vec<u64> = Vec::new();
            for t in 0..n_params
                invariant
                    n_params == eta@.len(),
                    fe@.len() == n_params,
                    i < n_params,
                    eta_minus@ == eta@.update(i as int, fsub(eta@[i as int], F_1E_NEG_6)),
                    params_minus@.len() == t,
                    forall|u: int| 0 <= u < t ==> params_minus@[u] == fadd(fe@[u], eta_minus@[u]),
            {
                params_minus.push(fp::add(fe[t], eta_minus[t]));
            }
            proof {
                assert(params_minus@ =~= theta_plus_eta(
                    fe@,
                    eta@.update(i as int, fsub(eta@[i as int], F_1E_NEG_6)),
                ));
            }
            let mut temp_minus = self.model.default_parameters();
            temp_minus.fixed_effects = params_minus;
            let predictions_minus = match self.predict_individual(individual, &temp_minus) {
                Ok(p) => p,
                Err(e) => {
                    return Err(e);
                },
            };

            let two_h = fp::mul(fp::F_TWO, F_1E_NEG_6);
            let mut grad_data = F_ZERO;
            let n_obs = individual.observations.len();
            let n_pred = predictions.len();
            let n_plus = predictions_plus.len();
            let n_minus = predictions_minus.len();
            let bound1 = if n_obs < n_pred {
                n_obs
            } else {
                n_pred
            };
            let bound2 = if bound1 < n_plus {
                bound1
            } else {
                n_plus
            };
            let bound = if bound2 < n_minus {
                bound2
            } else {
                n_minus
            };
            let mut k: usize = 0;
            while k < bound
                invariant
                    0 <= k <= bound,
                    bound <= individual.observations@.len(),
                    bound <= predictions@.len(),
                    bound <= predictions_plus@.len(),
                    bound <= predictions_minus@.len(),
                    k < individual.observations@.len() || k == bound,
                    two_h == fmul(fp::F_TWO, F_1E_NEG_6),
                    bound == min4_spec(
                        individual.observations@.len() as int,
                        predictions@.len() as int,
                        predictions_plus@.len() as int,
                        predictions_minus@.len() as int,
                    ),
                    grad_data_from(
                        individual.observations@,
                        predictions@,
                        predictions_plus@,
                        predictions_minus@,
                        resid_var,
                        0,
                        F_ZERO,
                    ) == grad_data_from(
                        individual.observations@,
                        predictions@,
                        predictions_plus@,
                        predictions_minus@,
                        resid_var,
                        k as int,
                        grad_data,
                    ),
                decreases bound - k,
            {
                let residual = fp::sub(individual.observations[k].value, predictions[k]);
                let dpred = fp::div(fp::sub(predictions_plus[k], predictions_minus[k]), two_h);
                grad_data = fp::add(grad_data, fp::div(fp::mul(residual, dpred), resid_var));
                k = k + 1;
            }
            let grad_prior = fp::div(fp::neg(eta[i]), omega[i][i]);

            let mut hess_data = F_ZERO;
            let hbound = if n_plus < n_minus {
                n_plus
            } else {
                n_minus
            };
            let mut k2: usize = 0;
            while k2 < hbound
                invariant
                    0 <= k2 <= hbound,
                    hbound <= predictions_plus@.len(),
                    hbound <= predictions_minus@.len(),
                    two_h == fmul(fp::F_TWO, F_1E_NEG_6),
                    hbound == if predictions_plus@.len() < predictions_minus@.len() {
                        predictions_plus@.len()
                    } else {
                        predictions_minus@.len()
                    },
                    hess_data_from(
                        predictions_plus@,
                        predictions_minus@,
                        resid_var,
                        0,
                        F_ZERO,
                    ) == hess_data_from(
                        predictions_plus@,
                        predictions_minus@,
                        resid_var,
                        k2 as int,
                        hess_data,
                    ),
                decreases hbound - k2,
            {
                let dpred = fp::div(fp::sub(predictions_plus[k2], predictions_minus[k2]), two_h);
                hess_data = fp::sub(hess_data, fp::div(fp::mul(dpred, dpred), resid_var));
                k2 = k2 + 1;
            }
            let hess_prior = fp::div(fp::neg(F_ONE), omega[i][i]);

            gradient.push(fp::add(grad_data, grad_prior));
            proof {
                assert(n_params <= 6);
                assert(i * n_params + i < n_params * n_params && i * n_params + i <= 36)
                    by (nonlinear_arith)
                    requires
                        0 <= i < n_params <= 6,
                ;
            }
            hessian.set(i * n_params + i, fp::add(hess_data, hess_prior));
            i = i + 1;
        }
        Ok((gradient, hessian))
    }

    /// Newton-Raphson on one individual's conditional objective, at most
    /// twenty inner iterations, stopping early on a non-positive-definite
    /// Hessian or a small gradient.
    fn optimize_individual_eta(
        &self,
        individual: &Individual,
        fe: &Vec<u64>,
        omega: &Vec<Vec<u64>>,
        resid_var: u64,
        initial_eta: &Vec<u64>,
    ) -> (r: Result<Vec<u64>, SolverError>)
        requires
            initial_eta@.len() == n_params_spec(self.model.model_type),
            fe@.len() == n_params_spec(self.model.model_type),
            square_spec(omega@, n_params_spec(self.model.model_type) as int),
        ensures
            crate::mcmc::vec_view(r) == newton_spec(
                self.model.model_type,
                *individual,
                fe@,
                rows_view(omega@),
                resid_var,
                initial_eta@,
                20,
            ),
    {
        let ghost mt = self.model.model_type;
        let ghost om = rows_view(omega@);
        let n_params = initial_eta.len();
        let mut eta = crate::linalg::copy_vec(initial_eta);
        let mut iter: usize = 0;
        while iter < 20
            invariant
                0 <= iter <= 20,
                n_params == n_params_spec(mt),
                mt == self.model.model_type,
                fe@.len() == n_params,
                square_spec(omega@, n_params as int),
                om == rows_view(omega@),
                eta@.len() == n_params,
                newton_spec(mt, *individual, fe@, om, resid_var, initial_eta@, 20) == newton_spec(
                    mt,
                    *individual,
                    fe@,
                    om,
                    resid_var,
                    eta@,
                    (20 - iter) as nat,
                ),
            decreases 20 - iter,
        {
            let gh = match self.calculate_individual_derivatives(
                individual,
                fe,
                omega,
                resid_var,
                &eta,
            ) {
                Ok(p) => p,
                Err(e) => {
                    return Err(e);
                },
            };
            let (gradient, hessian) = gh;
            let ghost grad_s = gradient@;
            let ghost hess_s = hessian@;
            proof {
                lemma_derivs_len(mt, *individual, fe@, om, resid_var, eta@);
                assert(grad_s.len() == n_params && hess_s.len() == n_params * n_params);
                assert(n_params <= 6);
            }

            // Regularize the Hessian diagonal.
            let mut reg = hessian;
            let mut d: usize = 0;
            while d < n_params
                invariant
                    0 <= d <= n_params,
                    n_params <= 6,
                    reg@.len() == n_params * n_params,
                    regularize_from(hess_s, n_params as int, 0) == regularize_from(
                        reg@,
                        n_params as int,
                        d as int,
                    ),
                decreases n_params - d,
            {
                proof {
                    assert(d * n_params + d < n_params * n_params && d * n_params + d <= 36)
                        by (nonlinear_arith)
                        requires
                            0 <= d < n_params <= 6,
                    ;
                }
                let cell = fp::add(reg[d * n_params + d], F_1E_NEG_6);
                reg.set(d * n_params + d, cell);
                d = d + 1;
            }

            let step = crate::linalg::chol_solve(&reg, n_params, &gradient);
            match step {
                Some(step_vec) => {
                    let mut new_eta: Vec<u64> = Vec::new();
                    for t in 0..n_params
                        invariant
                            n_params == eta@.len(),
                            step_vec@.len() == n_params,
                            new_eta@.len() == t,
                            forall|u: int|
                                0 <= u < t ==> new_eta@[u] == fmin(
                                    fmax(
                                        fsub(eta@[u], fmul(F_ONE, step_vec@[u])),
                                        F_NEG_FIVE,
                                    ),
                                    F_FIVE,
                                ),
                    {
                        let moved = fp::sub(eta[t], fp::mul(F_ONE, step_vec[t]));
                        new_eta.push(fp::min(fp::max(moved, F_NEG_FIVE), F_FIVE));
                    }
                    proof {
                        assert(new_eta@ =~= newton_update_spec(eta@, step_vec@));
                    }
                    eta = new_eta;

                    let mut norm_sq = F_ZERO;
                    for t in 0..n_params
                        invariant
                            gradient@ == grad_s,
                            n_params == gradient@.len(),
                            norm_sq_from(grad_s, 0, F_ZERO) == norm_sq_from(
                                grad_s,
                                t as int,
                                norm_sq,
                            ),
                    {
                        norm_sq = fp::add(norm_sq, fp::mul(gradient[t], gradient[t]));
                    }
                    if fp::lt(fp::sqrt(norm_sq), F_1E_NEG_6) {
                        return Ok(eta);
                    }
                },
                None => {
                    return Ok(eta);
                },
            }
            iter = iter + 1;
        }
        Ok(eta)
    }
}


impl FoceEstimator {
    /// The E-step: Newton-Raphson for every individual's deviations.
    fn estimate_individual_parameters(
        &self,
        dataset: &Dataset,
        fe: &Vec<u64>,
        omega: &Vec<Vec<u64>>,
        resid_var: u64,
        individual_params: &mut Vec<Vec<u64>>,
    ) -> (r: Result<(), SolverError>)
        requires
            old(individual_params)@.len() == dataset.individuals@.len(),
            forall|t: int|
                0 <= t < old(individual_params)@.len() ==> (#[trigger] old(
                    individual_params,
                )@[t])@.len() == n_params_spec(self.model.model_type),
            fe@.len() == n_params_spec(self.model.model_type),
            square_spec(omega@, n_params_spec(self.model.model_type) as int),
        ensures
            match r {
                Ok(()) => foce_estep_from(
                    self.model.model_type,
                    dataset.individuals@,
                    fe@,
                    rows_view(omega@),
                    resid_var,
                    rows_view(old(individual_params)@),
                    0,
                ) == Ok::<Seq<Seq<u64>>, SolverError>(rows_view(final(individual_params)@))
                    && final(individual_params)@.len() == dataset.individuals@.len() && (forall|t: int|
                    0 <= t < final(individual_params)@.len()
                        ==> (#[trigger] final(individual_params)@[t])@.len()
                        == n_params_spec(self.model.model_type)),
                Err(e) => foce_estep_from(
                    self.model.model_type,
                    dataset.individuals@,
                    fe@,
                    rows_view(omega@),
                    resid_var,
                    rows_view(old(individual_params)@),
                    0,
                ) == Err::<Seq<Seq<u64>>, SolverError>(e),
            },
    {
        let ghost mt = self.model.model_type;
        let ghost inds = dataset.individuals@;
        let ghost om = rows_view(omega@);
        let ghost etas0 = rows_view(old(individual_params)@);
        let n_individuals = dataset.individuals.len();
        for j in 0..n_individuals
            invariant
                n_individuals == inds.len(),
                inds == dataset.individuals@,
                mt == self.model.model_type,
                om == rows_view(omega@),
                fe@.len() == n_params_spec(mt),
                square_spec(omega@, n_params_spec(mt) as int),
                individual_params@.len() == inds.len(),
                forall|t: int|
                    0 <= t < individual_params@.len() ==> (
                    #[trigger] individual_params@[t])@.len() == n_params_spec(mt),
                etas0 == rows_view(old(individual_params)@),
                foce_estep_from(mt, inds, fe@, om, resid_var, etas0, 0) == foce_estep_from(
                    mt,
                    inds,
                    fe@,
                    om,
                    resid_var,
                    rows_view(individual_params@),
                    j as int,
                ),
        {
            let individual = &dataset.individuals[j];
            let res = self.optimize_individual_eta(
                individual,
                fe,
                omega,
                resid_var,
                &individual_params[j],
            );
            proof {
                lemma_newton_len(
                    mt,
                    inds[j as int],
                    fe@,
                    om,
                    resid_var,
                    individual_params@[j as int]@,
                    20,
                );
            }
            match res {
                Ok(eta2) => {
                    let ghost prev = rows_view(individual_params@);
                    let ghost nv = eta2@;
                    individual_params.set(j, eta2);
                    proof {
                        assert(rows_view(individual_params@) =~~= prev.update(j as int, nv));
                    }
                },
                Err(e) => {
                    proof {
                        lemma_estep_err(
                            mt,
                            inds,
                            fe@,
                            om,
                            resid_var,
                            rows_view(individual_params@),
                            j as int,
                            e,
                        );
                    }
                    return Err(e);
                },
            }
        }
        Ok(())
    }

    /// The M-step plus the new objective; any failed prediction stops the
    /// iteration with its fault.
    #[verifier::rlimit(100)]
    fn update_population_parameters(
        &self,
        dataset: &Dataset,
        individual_params: &Vec<Vec<u64>>,
        current_params: &mut ModelParameters,
    ) -> (r: Result<u64, SolverError>)
        requires
            individual_params@.len() == dataset.individuals@.len(),
            forall|t: int|
                0 <= t < individual_params@.len() ==> (#[trigger] individual_params@[t])@.len()
                    == n_params_spec(self.model.model_type),
            old(current_params).fixed_effects@.len() == n_params_spec(self.model.model_type),
            crate::data::obs_count_from(dataset.individuals@, 0) <= usize::MAX,
        ensures
            ({
                let m = foce_mstep_spec(
                    self.model.model_type,
                    dataset.individuals@,
                    rows_view(individual_params@),
                    n_params_spec(self.model.model_type) as int,
                    old(current_params).residual_variance,
                    rows_view(old(current_params).random_effects_variance@),
                );
                match r {
                    Ok(objective) => m matches Ok(ms) && final(current_params).fixed_effects@
                        == ms.fe && rows_view(final(current_params).random_effects_variance@)
                        == ms.omega && final(current_params).residual_variance == ms.resid
                        && objective == ms.objective && final(current_params).parameter_names
                        == old(current_params).parameter_names,
                    Err(e) => m == Err::<FoceMStep, SolverError>(e),
                }
            }),
    {
        let ghost mt = self.model.model_type;
        let ghost inds = dataset.individuals@;
        let ghost etas = rows_view(individual_params@);
        let n_params = current_params.fixed_effects.len();
        let n_individuals = dataset.individuals.len();
        let n_f = fp::from_u64(n_individuals as u64);

        // Plain mean of the stored deviations, clamped at -10.
        let mut new_fixed: Vec<u64> = Vec::new();
        for i in 0..n_params
            invariant
                n_individuals == inds.len(),
                individual_params@.len() == inds.len(),
                etas == rows_view(individual_params@),
                forall|t: int|
                    0 <= t < individual_params@.len() ==> (
                    #[trigger] individual_params@[t])@.len() == n_params,
                n_f == f_from_u64(inds.len() as u64),
                new_fixed@.len() == i,
                forall|t: int|
                    0 <= t < i ==> new_fixed@[t] == fmax(
                        fdiv(col_sum_from(etas, t, 0, F_ZERO), n_f),
                        F_NEG_TEN,
                    ),
        {
            let mut acc = F_ZERO;
            for k in 0..n_individuals
                invariant
                    n_individuals == inds.len(),
                    individual_params@.len() == inds.len(),
                    i < n_params,
                    etas == rows_view(individual_params@),
                    forall|t: int|
                        0 <= t < individual_params@.len() ==> (
                        #[trigger] individual_params@[t])@.len() == n_params,
                    col_sum_from(etas, i as int, 0, F_ZERO) == col_sum_from(
                        etas,
                        i as int,
                        k as int,
                        acc,
                    ),
            {
                acc = fp::add(acc, individual_params[k][i]);
            }
            new_fixed.push(fp::max(fp::div(acc, n_f), F_NEG_TEN));
        }
        current_params.fixed_effects = new_fixed;
        let ghost fe2 = current_params.fixed_effects@;
        proof {
            assert(fe2 =~= Seq::new(
                n_params as nat,
                |i: int| fmax(fdiv(col_sum_from(etas, i, 0, F_ZERO), n_f), F_NEG_TEN),
            ));
        }

        // Empirical covariance of the deviations around the new mean.
        let mut new_omega: Vec<Vec<u64>> = Vec::new();
        for i in 0..n_params
            invariant
                n_individuals == inds.len(),
                individual_params@.len() == inds.len(),
                etas == rows_view(individual_params@),
                forall|t: int|
                    0 <= t < individual_params@.len() ==> (
                    #[trigger] individual_params@[t])@.len() == n_params,
                current_params.fixed_effects@ == fe2,
                fe2.len() == n_params,
                n_f == f_from_u64(inds.len() as u64),
                new_omega@.len() == i,
                forall|t: int| 0 <= t < i ==> (#[trigger] new_omega@[t])@.len() == n_params,
                forall|t: int, u: int|
                    0 <= t < i && 0 <= u < n_params ==> #[trigger] new_omega@[t]@[u] == fdiv(
                        outer_sum_from(etas, fe2, t, u, 0, F_ZERO),
                        n_f,
                    ),
        {
            let mut row: Vec<u64> = Vec::new();
            for j in 0..n_params
                invariant
                    n_individuals == inds.len(),
                    individual_params@.len() == inds.len(),
                    i < n_params,
                    etas == rows_view(individual_params@),
                    forall|t: int|
                        0 <= t < individual_params@.len() ==> (
                        #[trigger] individual_params@[t])@.len() == n_params,
                    current_params.fixed_effects@ == fe2,
                    fe2.len() == n_params,
                    n_f == f_from_u64(inds.len() as u64),
                    row@.len() == j,
                    forall|u: int|
                        0 <= u < j ==> #[trigger] row@[u] == fdiv(
                            outer_sum_from(etas, fe2, i as int, u, 0, F_ZERO),
                            n_f,
                        ),
            {
                let mut cell = F_ZERO;
                for k in 0..n_individuals
                    invariant
                        n_individuals == inds.len(),
                        individual_params@.len() == inds.len(),
                        i < n_params,
                        j < n_params,
                        etas == rows_view(individual_params@),
                        forall|t: int|
                            0 <= t < individual_params@.len() ==> (
                            #[trigger] individual_params@[t])@.len() == n_params,
                        current_params.fixed_effects@ == fe2,
                        fe2.len() == n_params,
                        outer_sum_from(etas, fe2, i as int, j as int, 0, F_ZERO) == outer_sum_from(
                            etas,
                            fe2,
                            i as int,
                            j as int,
                            k as int,
                            cell,
                        ),
                {
                    let ci = fp::sub(individual_params[k][i], current_params.fixed_effects[i]);
                    let cj = fp::sub(individual_params[k][j], current_params.fixed_effects[j]);
                    cell = fp::add(cell, fp::mul(ci, cj));
                }
                row.push(fp::div(cell, n_f));
            }
            new_omega.push(row);
        }
        current_params.random_effects_variance = new_omega;

        // Mean squared residual under `theta + eta` predictions.
        let mut residual_sum = F_ZERO;
        let mut total_observations: usize = 0;
        let mut j: usize = 0;
        while j < n_individuals
            invariant
                0 <= j <= n_individuals,
                n_individuals == inds.len(),
                inds == dataset.individuals@,
                individual_params@.len() == inds.len(),
                etas == rows_view(individual_params@),
                forall|t: int|
                    0 <= t < individual_params@.len() ==> (
                    #[trigger] individual_params@[t])@.len() == n_params,
                mt == self.model.model_type,
                n_params == n_params_spec(mt),
                current_params.fixed_effects@ == fe2,
                fe2.len() == n_params,
                crate::data::obs_count_from(inds, 0) <= usize::MAX,
                n_f == f_from_u64(inds.len() as u64),
                fe2 == Seq::new(
                    n_params as nat,
                    |i: int| fmax(fdiv(col_sum_from(etas, i, 0, F_ZERO), n_f), F_NEG_TEN),
                ),
                total_observations + crate::data::obs_count_from(inds, j as int)
                    <= crate::data::obs_count_from(inds, 0),
                foce_resid_from(mt, inds, etas, fe2, 0, F_ZERO, 0) == foce_resid_from(
                    mt,
                    inds,
                    etas,
                    fe2,
                    j as int,
                    residual_sum,
                    total_observations as int,
                ),
            decreases n_individuals - j,
        {
            let individual = &dataset.individuals[j];
            let mut ind_full: Vec<u64> = Vec::new();
            for i in 0..n_params
                invariant
                    n_params == fe2.len(),
                    current_params.fixed_effects@ == fe2,
                    j < individual_params@.len(),
                    individual_params@[j as int]@.len() == n_params,
                    ind_full@.len() == i,
                    forall|t: int|
                        0 <= t < i ==> ind_full@[t] == fadd(
                            fe2[t],
                            individual_params@[j as int]@[t],
                        ),
            {
                ind_full.push(fp::add(current_params.fixed_effects[i], individual_params[j][i]));
            }
            proof {
                assert(ind_full@ =~= theta_plus_eta(fe2, etas[j as int]));
            }
            let mut temp_params = self.model.default_parameters();
            temp_params.fixed_effects = ind_full;
            let res = self.predict_individual(individual, &temp_params);
            match res {
                Ok(predicted) => {
                    let n_obs = individual.observations.len();
                    let n_pred = predicted.len();
                    let pairs = if n_obs < n_pred {
                        n_obs
                    } else {
                        n_pred
                    };
                    let ghost racc0 = residual_sum;
                    let mut k: usize = 0;
                    while k < pairs
                        invariant
                            pairs <= individual.observations@.len(),
                            pairs <= predicted@.len(),
                            0 <= k <= pairs,
                            pairs == if individual.observations@.len() < predicted@.len() {
                                individual.observations@.len()
                            } else {
                                predicted@.len()
                            },
                            crate::saem::resid_pairs_from(
                                individual.observations@,
                                predicted@,
                                0,
                                racc0,
                            ) == crate::saem::resid_pairs_from(
                                individual.observations@,
                                predicted@,
                                k as int,
                                residual_sum,
                            ),
                        decreases pairs - k,
                    {
                        let d = fp::sub(individual.observations[k].value, predicted[k]);
                        residual_sum = fp::add(residual_sum, fp::mul(d, d));
                        k = k + 1;
                    }
                    proof {
                        crate::data::lemma_obs_count_nonneg(inds, j + 1);
                    }
                    total_observations = total_observations + pairs;
                    j = j + 1;
                },
                Err(e) => {
                    proof {
                        lemma_foce_resid_err(
                            mt,
                            inds,
                            etas,
                            fe2,
                            j as int,
                            residual_sum,
                            total_observations as int,
                            e,
                        );
                    }
                    return Err(e);
                },
            }
        }

        if total_observations > 0 {
            current_params.residual_variance = fp::div(
                residual_sum,
                fp::from_u64(total_observations as u64),
            );
        }

        let obj = self.calculate_objective_function(
            dataset,
            individual_params,
            &current_params.fixed_effects,
            &current_params.random_effects_variance,
            current_params.residual_variance,
        );
        proof {
            let m = foce_mstep_spec(
                mt,
                inds,
                etas,
                n_params as int,
                old(current_params).residual_variance,
                rows_view(old(current_params).random_effects_variance@),
            );
            assert(current_params.fixed_effects@ =~= Seq::new(
                n_params as nat,
                |i: int| fmax(fdiv(col_sum_from(etas, i, 0, F_ZERO), n_f), F_NEG_TEN),
            ));
            assert(rows_view(current_params.random_effects_variance@) =~~= Seq::new(
                n_params as nat,
                |i: int| Seq::new(
                    n_params as nat,
                    |j2: int| fdiv(outer_sum_from(etas, current_params.fixed_effects@, i, j2, 0, F_ZERO), n_f),
                ),
            ));
        }
        match obj {
            Ok(objective) => Ok(objective),
            Err(e) => Err(e),
        }
    }
}

/// An individual whose Newton search fails makes the whole E-step fail.
pub proof fn lemma_estep_err(
    mt: ModelType,
    inds: Seq<Individual>,
    fe: Seq<u64>,
    omega: Seq<Seq<u64>>,
    resid_var: u64,
    etas: Seq<Seq<u64>>,
    j: int,
    e: SolverError,
)
    requires
        0 <= j < inds.len(),
        newton_spec(mt, inds[j], fe, omega, resid_var, etas[j], 20) == Err::<Seq<u64>, SolverError>(
            e,
        ),
    ensures
        foce_estep_from(mt, inds, fe, omega, resid_var, etas, j) == Err::<
            Seq<Seq<u64>>,
            SolverError,
        >(e),
{
}

/// A failed prediction inside the residual phase fails the whole phase.
pub proof fn lemma_foce_resid_err(
    mt: ModelType,
    inds: Seq<Individual>,
    etas: Seq<Seq<u64>>,
    fe: Seq<u64>,
    j: int,
    racc: u64,
    count: int,
    e: SolverError,
)
    requires
        0 <= j < inds.len(),
        predict_spec(mt, theta_plus_eta(fe, etas[j]), inds[j], F_ONE) == Err::<Seq<u64>, SolverError>(
            e,
        ),
    ensures
        foce_resid_from(mt, inds, etas, fe, j, racc, count) == Err::<(u64, int), SolverError>(e),
{
}



/// The Newton search keeps the deviation dimension.
pub proof fn lemma_newton_len(
    mt: ModelType,
    ind: Individual,
    fe: Seq<u64>,
    omega: Seq<Seq<u64>>,
    resid_var: u64,
    eta: Seq<u64>,
    k: nat,
)
    ensures
        newton_spec(mt, ind, fe, omega, resid_var, eta, k) matches Ok(e2) ==> e2.len()
            == eta.len(),
    decreases k,
{
    if k > 0 {
        match derivs_spec(mt, ind, fe, omega, resid_var, eta) {
            Err(_) => {},
            Ok(gh) => {
                let n = eta.len() as int;
                match chol_solve_of(regularize_spec(gh.1, n), n, gh.0) {
                    Some(step) => {
                        let eta2 = newton_update_spec(eta, step);
                        lemma_newton_len(mt, ind, fe, omega, resid_var, eta2, (k - 1) as nat);
                    },
                    None => {},
                }
            },
        }
    }
}


impl FoceEstimator {
    /// The Fisher information matrix by second-order central differences of
    /// the objective, inverted (with a regularized or identity fallback) into
    /// a covariance matrix with per-parameter standard errors.
    #[verifier::rlimit(100)]
    fn estimate_covariance_matrix(
        &self,
        dataset: &Dataset,
        individual_params: &Vec<Vec<u64>>,
        fe: &Vec<u64>,
        omega: &Vec<Vec<u64>>,
        resid_var: u64,
    ) -> (r: Result<(Vec<Vec<u64>>, Vec<u64>), SolverError>)
        requires
            individual_params@.len() == dataset.individuals@.len(),
            forall|t: int|
                0 <= t < individual_params@.len() ==> (#[trigger] individual_params@[t])@.len()
                    == n_params_spec(self.model.model_type),
            fe@.len() == n_params_spec(self.model.model_type),
            square_spec(omega@, n_params_spec(self.model.model_type) as int),
        ensures
            match r {
                Ok(cs) => covariance_post(
                    self.model.model_type,
                    dataset.individuals@,
                    rows_view(individual_params@),
                    fe@,
                    rows_view(omega@),
                    resid_var,
                    rows_view(cs.0@),
                ) && cs.0@.len() == n_params_spec(self.model.model_type) && square_spec(
                    cs.0@,
                    n_params_spec(self.model.model_type) as int,
                ) && cs.1@.len() == n_params_spec(self.model.model_type) && (forall|i: int|
                    0 <= i < cs.1@.len() ==> cs.1@[i] == fsqrt(rows_view(cs.0@)[i][i])),
                Err(e) => exists|i: int, j: int|
                    0 <= i < n_params_spec(self.model.model_type) && 0 <= j < n_params_spec(
                        self.model.model_type,
                    ) && #[trigger] fisher_cell_spec(
                        self.model.model_type,
                        dataset.individuals@,
                        rows_view(individual_params@),
                        fe@,
                        rows_view(omega@),
                        resid_var,
                        i,
                        j,
                    ) == Err::<u64, SolverError>(e),
            },
    {
        let ghost mt = self.model.model_type;
        let ghost inds = dataset.individuals@;
        let ghost etas = rows_view(individual_params@);
        let ghost om = rows_view(omega@);
        let n_params = fe.len();
        proof {
            assert(n_params <= 6);
        }

        // Fisher information by finite differences, column-major flat.
        let mut fisher_flat: Vec<u64> = Vec::new();
        let mut c: usize = 0;
        while c < n_params
            invariant
                0 <= c <= n_params,
                n_params <= 6,
                mt == self.model.model_type,
                inds == dataset.individuals@,
                etas == rows_view(individual_params@),
                om == rows_view(omega@),
                n_params == n_params_spec(mt),
                individual_params@.len() == inds.len(),
                forall|t: int|
                    0 <= t < individual_params@.len() ==> (
                    #[trigger] individual_params@[t])@.len() == n_params,
                fe@.len() == n_params,
                square_spec(omega@, n_params as int),
                fisher_flat@.len() == c * n_params,
                forall|t: int, u: int|
                    0 <= t < n_params && 0 <= u < n_params && u * n_params + t
                        < fisher_flat@.len() ==> fisher_cell_spec(mt, inds, etas, fe@, om, resid_var, t, u)
                        == Ok::<u64, SolverError>(#[trigger] fisher_flat@[u * n_params + t]),
            decreases n_params - c,
        {
            let mut rr: usize = 0;
            while rr < n_params
                invariant
                    0 <= rr <= n_params,
                    c < n_params,
                    n_params <= 6,
                    mt == self.model.model_type,
                    inds == dataset.individuals@,
                    etas == rows_view(individual_params@),
                    om == rows_view(omega@),
                    n_params == n_params_spec(mt),
                    individual_params@.len() == inds.len(),
                    forall|t: int|
                        0 <= t < individual_params@.len() ==> (
                        #[trigger] individual_params@[t])@.len() == n_params,
                    fe@.len() == n_params,
                    square_spec(omega@, n_params as int),
                    fisher_flat@.len() == c * n_params + rr,
                    forall|t: int, u: int|
                        0 <= t < n_params && 0 <= u < n_params && u * n_params + t
                            < fisher_flat@.len() ==> fisher_cell_spec(mt, inds, etas, fe@, om, resid_var, t, u)
                            == Ok::<u64, SolverError>(#[trigger] fisher_flat@[u * n_params + t]),
                decreases n_params - rr,
            {
                // The cell at row `rr`, column `c`.
                let mut fe_ij = crate::linalg::copy_vec(fe);
                fe_ij.set(rr, fp::add(fe_ij[rr], F_1E_NEG_6));
                let prev = fe_ij[c];
                fe_ij.set(c, fp::add(prev, F_1E_NEG_6));
                let mut fe_i = crate::linalg::copy_vec(fe);
                fe_i.set(rr, fp::add(fe[rr], F_1E_NEG_6));
                let mut fe_j = crate::linalg::copy_vec(fe);
                fe_j.set(c, fp::add(fe[c], F_1E_NEG_6));
                proof {
                    assert(fe_ij@ =~= fe@.update(rr as int, fadd(fe@[rr as int], F_1E_NEG_6)).update(
                        c as int,
                        fadd(
                            fe@.update(rr as int, fadd(fe@[rr as int], F_1E_NEG_6))[c as int],
                            F_1E_NEG_6,
                        ),
                    ));
                    assert(fe_i@ =~= fe@.update(rr as int, fadd(fe@[rr as int], F_1E_NEG_6)));
                    assert(fe_j@ =~= fe@.update(c as int, fadd(fe@[c as int], F_1E_NEG_6)));
                }
                let obj_ij = match self.calculate_objective_function(
                    dataset,
                    individual_params,
                    &fe_ij,
                    omega,
                    resid_var,
                ) {
                    Ok(v) => v,
                    Err(e) => {
                        proof {
                            assert(fisher_cell_spec(
                                mt,
                                inds,
                                etas,
                                fe@,
                                om,
                                resid_var,
                                rr as int,
                                c as int,
                            ) == Err::<u64, SolverError>(e));
                            assert(exists|i: int, j: int|
                                0 <= i < n_params && 0 <= j < n_params && #[trigger] fisher_cell_spec(
                                    mt,
                                    inds,
                                    etas,
                                    fe@,
                                    om,
                                    resid_var,
                                    i,
                                    j,
                                ) == Err::<u64, SolverError>(e));
                        }
                        return Err(e);
                    },
                };
                let obj_i = match self.calculate_objective_function(
                    dataset,
                    individual_params,
                    &fe_i,
                    omega,
                    resid_var,
                ) {
                    Ok(v) => v,
                    Err(e) => {
                        proof {
                            assert(fisher_cell_spec(
                                mt,
                                inds,
                                etas,
                                fe@,
                                om,
                                resid_var,
                                rr as int,
                                c as int,
                            ) == Err::<u64, SolverError>(e));
                            assert(exists|i: int, j: int|
                                0 <= i < n_params && 0 <= j < n_params && #[trigger] fisher_cell_spec(
                                    mt,
                                    inds,
                                    etas,
                                    fe@,
                                    om,
                                    resid_var,
                                    i,
                                    j,
                                ) == Err::<u64, SolverError>(e));
                        }
                        return Err(e);
                    },
                };
                let obj_j = match self.calculate_objective_function(
                    dataset,
                    individual_params,
                    &fe_j,
                    omega,
                    resid_var,
                ) {
                    Ok(v) => v,
                    Err(e) => {
                        proof {
                            assert(fisher_cell_spec(
                                mt,
                                inds,
                                etas,
                                fe@,
                                om,
                                resid_var,
                                rr as int,
                                c as int,
                            ) == Err::<u64, SolverError>(e));
                            assert(exists|i: int, j: int|
                                0 <= i < n_params && 0 <= j < n_params && #[trigger] fisher_cell_spec(
                                    mt,
                                    inds,
                                    etas,
                                    fe@,
                                    om,
                                    resid_var,
                                    i,
                                    j,
                                ) == Err::<u64, SolverError>(e));
                        }
                        return Err(e);
                    },
                };
                let obj_base = match self.calculate_objective_function(
                    dataset,
                    individual_params,
                    fe,
                    omega,
                    resid_var,
                ) {
                    Ok(v) => v,
                    Err(e) => {
                        proof {
                            assert(fisher_cell_spec(
                                mt,
                                inds,
                                etas,
                                fe@,
                                om,
                                resid_var,
                                rr as int,
                                c as int,
                            ) == Err::<u64, SolverError>(e));
                            assert(exists|i: int, j: int|
                                0 <= i < n_params && 0 <= j < n_params && #[trigger] fisher_cell_spec(
                                    mt,
                                    inds,
                                    etas,
                                    fe@,
                                    om,
                                    resid_var,
                                    i,
                                    j,
                                ) == Err::<u64, SolverError>(e));
                        }
                        return Err(e);
                    },
                };
                proof {
                    assert(fisher_cell_spec(mt, inds, etas, fe@, om, resid_var, rr as int, c as int)
                        == Ok::<u64, SolverError>(
                        fdiv(
                            fadd(fsub(fsub(obj_ij, obj_i), obj_j), obj_base),
                            fmul(F_1E_NEG_6, F_1E_NEG_6),
                        ),
                    ));
                }
                let second_deriv = fp::div(
                    fp::add(fp::sub(fp::sub(obj_ij, obj_i), obj_j), obj_base),
                    fp::mul(F_1E_NEG_6, F_1E_NEG_6),
                );
                fisher_flat.push(second_deriv);
                proof {
                    assert(fisher_cell_spec(mt, inds, etas, fe@, om, resid_var, rr as int, c as int)
                        == Ok::<u64, SolverError>(second_deriv));
                    assert forall|t: int, u: int|
                        0 <= t < n_params && 0 <= u < n_params && u * n_params + t
                            < fisher_flat@.len() implies fisher_cell_spec(
                        mt,
                        inds,
                        etas,
                        fe@,
                        om,
                        resid_var,
                        t,
                        u,
                    ) == Ok::<u64, SolverError>(#[trigger] fisher_flat@[u * n_params + t]) by {
                        if u * n_params + t == c * n_params + rr {
                            crate::saem::lemma_rowmajor_unique(
                                n_params as int,
                                u,
                                t,
                                c as int,
                                rr as int,
                            );
                        }
                    }
                }
                rr = rr + 1;
            }
            proof {
                assert(c * n_params + n_params == (c + 1) * n_params) by (nonlinear_arith);
            }
            c = c + 1;
        }
        proof {
            assert(fisher_flat@.len() == n_params * n_params);
        }
        let ghost flatw = fisher_flat@;
        let cs = invert_fisher(fisher_flat, n_params);
        proof {
            assert(covariance_post(mt, inds, etas, fe@, om, resid_var, rows_view(cs.0@)));
        }
        let (covariance_matrix, standard_errors) = cs;
        Ok((covariance_matrix, standard_errors))
    }
}

/// Inverts a column-major Fisher matrix with a regularized and then an
/// identity fallback, returning the row-indexed covariance, the standard
/// errors, and the Fisher matrix itself.
#[verifier::rlimit(100)]
fn invert_fisher(fisher_flat: Vec<u64>, n_params: usize) -> (r: (Vec<Vec<u64>>, Vec<u64>))
    requires
        fisher_flat@.len() == n_params * n_params,
        n_params <= 6,
    ensures
        inverse_or_fallback(fisher_flat@, n_params as int, rows_view(r.0@)),
        r.0@.len() == n_params,
        square_spec(r.0@, n_params as int),
        r.1@.len() == n_params,
        forall|i: int| 0 <= i < r.1@.len() ==> r.1@[i] == fsqrt(rows_view(r.0@)[i][i]),
{
        let ghost flat0 = fisher_flat@;
        // Invert, with a regularized and then an identity fallback.
        let ghost first = inverse_of(fisher_flat@, n_params as int);
        let ghost second = inverse_of(
            regularize_from(fisher_flat@, n_params as int, 0),
            n_params as int,
        );
        let mut fell_through = false;
        let inv_flat: Vec<u64> = match crate::linalg::mat_inverse(&fisher_flat, n_params) {
            Some(v) => v,
            None => {
                let mut reg = crate::linalg::copy_vec(&fisher_flat);
                let mut d: usize = 0;
                while d < n_params
                    invariant
                        0 <= d <= n_params,
                        n_params <= 6,
                        reg@.len() == n_params * n_params,
                        regularize_from(fisher_flat@, n_params as int, 0) == regularize_from(
                            reg@,
                            n_params as int,
                            d as int,
                        ),
                    decreases n_params - d,
                {
                    proof {
                        assert(d * n_params + d < n_params * n_params && d * n_params + d <= 36)
                            by (nonlinear_arith)
                            requires
                                0 <= d < n_params <= 6,
                        ;
                    }
                    let cell = fp::add(reg[d * n_params + d], F_1E_NEG_6);
                    reg.set(d * n_params + d, cell);
                    d = d + 1;
                }
                proof {
                    assert(regularize_from(fisher_flat@, n_params as int, 0) == reg@);
                }
                match crate::linalg::mat_inverse(&reg, n_params) {
                    Some(v) => v,
                    None => {
                        fell_through = true;
                        crate::linalg::zeros(n_params * n_params)
                    },
                }
            },
        };

        // Back to a row-indexed matrix with its standard errors.
        let mut covariance_matrix: Vec<Vec<u64>> = Vec::new();
        let mut standard_errors: Vec<u64> = Vec::new();
        let mut i: usize = 0;
        while i < n_params
            invariant
                0 <= i <= n_params,
                n_params <= 6,
                inv_flat@.len() == n_params * n_params,
                covariance_matrix@.len() == i,
                standard_errors@.len() == i,
                forall|t: int|
                    0 <= t < i ==> (#[trigger] covariance_matrix@[t])@.len() == n_params,
                forall|t: int, u: int|
                    0 <= t < i && 0 <= u < n_params ==> #[trigger] covariance_matrix@[t]@[u] == (
                    if fell_through {
                        if t == u {
                            F_ONE
                        } else {
                            F_ZERO
                        }
                    } else {
                        inv_flat@[u * n_params + t]
                    }),
                forall|t: int|
                    0 <= t < i ==> #[trigger] standard_errors@[t] == fsqrt(
                        covariance_matrix@[t]@[t],
                    ),
                fell_through ==> first is None && second is None,
                !fell_through ==> ((first matches Some(v) && v == inv_flat@) || (first is None
                    && (second matches Some(v) && v == inv_flat@))),
                first == inverse_of(flat0, n_params as int),
                second == inverse_of(regularize_from(flat0, n_params as int, 0), n_params as int),
                fisher_flat@ == flat0,
            decreases n_params - i,
        {
            let mut row: Vec<u64> = Vec::new();
            let mut j2: usize = 0;
            while j2 < n_params
                invariant
                    0 <= j2 <= n_params,
                    i < n_params,
                    n_params <= 6,
                    inv_flat@.len() == n_params * n_params,
                    row@.len() == j2,
                    forall|u: int|
                        0 <= u < j2 ==> #[trigger] row@[u] == (if fell_through {
                            if i == u {
                                F_ONE
                            } else {
                                F_ZERO
                            }
                        } else {
                            inv_flat@[u * n_params + i]
                        }),
                decreases n_params - j2,
            {
                proof {
                    assert(j2 * n_params + i < n_params * n_params && j2 * n_params + i <= 36)
                        by (nonlinear_arith)
                        requires
                            0 <= j2 < n_params <= 6,
                            0 <= i < n_params,
                    ;
                }
                if fell_through {
                    if i == j2 {
                        row.push(F_ONE);
                    } else {
                        row.push(F_ZERO);
                    }
                } else {
                    row.push(inv_flat[j2 * n_params + i]);
                }
                j2 = j2 + 1;
            }
            standard_errors.push(fp::sqrt(row[i]));
            covariance_matrix.push(row);
            i = i + 1;
        }
        proof {
            assert(inverse_or_fallback(fisher_flat@, n_params as int, rows_view(
                covariance_matrix@,
            )));
        }
        (covariance_matrix, standard_errors)
}

/// How a covariance matrix reports the Fisher-information computation: every
/// cell is read back, row `i` and column `j`, from the column-major inverse
/// of the Fisher matrix (or of its regularized or identity fallback) whose
/// own cells are the finite-difference second derivatives.
pub open spec fn covariance_post(
    mt: ModelType,
    inds: Seq<Individual>,
    etas: Seq<Seq<u64>>,
    fe: Seq<u64>,
    omega: Seq<Seq<u64>>,
    resid_var: u64,
    cov: Seq<Seq<u64>>,
) -> bool {
    let np = fe.len() as int;
    exists|flat: Seq<u64>|
        {
            &&& #[trigger] flat.len() == np * np
            &&& (forall|t: int, u: int|
                0 <= t < np && 0 <= u < np ==> fisher_cell_spec(mt, inds, etas, fe, omega, resid_var, t, u)
                    == Ok::<u64, SolverError>(#[trigger] flat[u * np + t]))
            &&& inverse_or_fallback(flat, np, cov)
        }
}

/// The covariance cells come from the inverse of `flat`, else of its
/// regularized form, else from the identity.
pub open spec fn inverse_or_fallback(flat: Seq<u64>, np: int, cov: Seq<Seq<u64>>) -> bool {
    let inv = match inverse_of(flat, np) {
        Some(v) => v,
        None => match inverse_of(regularize_from(flat, np, 0), np) {
            Some(v) => v,
            None => Seq::new((np * np) as nat, |t: int| F_ZERO),
        },
    };
    let fell_through = inverse_of(flat, np) is None && inverse_of(
        regularize_from(flat, np, 0),
        np,
    ) is None;
    &&& cov.len() == np
    &&& forall|t: int| 0 <= t < np ==> (#[trigger] cov[t]).len() == np
    &&& forall|t: int, u: int|
        0 <= t < np && 0 <= u < np ==> #[trigger] cov[t][u] == (if fell_through {
            if t == u {
                F_ONE
            } else {
                F_ZERO
            }
        } else {
            inv[u * np + t]
        })
}


/// What a FOCE fit returns: the results of the state the outer recurrence
/// reaches together with its final objective and covariance.  A fault is
/// returned exactly when the recurrence itself faults, or when the final
/// objective evaluation or a Fisher-cell evaluation at the reached state
/// faults: non-convergence alone never raises an error.
pub open spec fn foce_fit_post(
    mt: ModelType,
    inds: Seq<Individual>,
    cfg: EstimationConfig,
    r: Result<FoceResults, SolverError>,
) -> bool {
    match (r, foce_iter_spec(mt, inds, cfg, cfg.foce_max_iterations as nat)) {
        (Ok(res), Ok(st)) => objective_from(mt, inds, st.etas, st.fe, st.omega, st.resid, 0, F_ZERO)
            matches Ok(objective) && covariance_post(
            mt,
            inds,
            st.etas,
            st.fe,
            st.omega,
            st.resid,
            rows_view(res.covariance_matrix@),
        ) && foce_results_match(
            mt,
            inds,
            cfg,
            st,
            objective,
            rows_view(res.covariance_matrix@),
            res,
        ),
        (Err(e), Err(e2)) => e == e2,
        (Err(e), Ok(st)) => objective_from(mt, inds, st.etas, st.fe, st.omega, st.resid, 0, F_ZERO)
            == Err::<u64, SolverError>(e) || (exists|i: int, j: int|
            0 <= i < n_params_spec(mt) && 0 <= j < n_params_spec(mt) && #[trigger] fisher_cell_spec(
                mt,
                inds,
                st.etas,
                st.fe,
                st.omega,
                st.resid,
                i,
                j,
            ) == Err::<u64, SolverError>(e)),
        (Ok(_), Err(_)) => false,
    }
}

impl FoceEstimator {
    /// Runs the FOCE loop: per outer iteration, a Newton-Raphson E-step per
    /// individual and a direct-averaging M-step, stopping early when the
    /// objective's relative change falls below the tolerance; then the
    /// Fisher-information covariance and standard errors.  The whole run is
    /// a function of the dataset and the configuration.
    #[verifier::rlimit(100)]
    pub fn fit(&mut self, dataset: &Dataset) -> (r: Result<FoceResults, SolverError>)
        requires
            crate::data::obs_count_from(dataset.individuals@, 0) <= usize::MAX,
        ensures
            foce_fit_post(old(self).model.model_type, dataset.individuals@, old(self).config, r),
    {
        let ghost mt = self.model.model_type;
        let ghost inds = dataset.individuals@;
        let ghost cfg = self.config;

        let names = self.model.parameter_names();
        let n_params = names.len();
        let mut current_params = self.model.default_parameters();
        let n_individuals = dataset.individuals.len();
        let mut individual_params: Vec<Vec<u64>> = Vec::new();
        for j in 0..n_individuals
            invariant
                individual_params@.len() == j,
                current_params.fixed_effects@ == crate::models::default_fixed_spec(mt),
                mt == self.model.model_type,
                forall|t: int|
                    0 <= t < j ==> (#[trigger] individual_params@[t])@
                        == crate::models::default_fixed_spec(mt),
        {
            individual_params.push(crate::linalg::copy_vec(&current_params.fixed_effects));
        }

        let mut previous_objective: u64 = fp::F_INF;
        let mut converged = false;

        proof {
            let st0 = foce_init_spec(mt, inds);
            assert(current_params.fixed_effects@ =~= st0.fe);
            assert(rows_view(current_params.random_effects_variance@) =~~= st0.omega);
            assert(rows_view(individual_params@) =~~= st0.etas);
            assert(foce_iter_spec(mt, inds, cfg, 0) == Ok::<FoceState, SolverError>(
                FoceState {
                    fe: current_params.fixed_effects@,
                    omega: rows_view(current_params.random_effects_variance@),
                    resid: current_params.residual_variance,
                    etas: rows_view(individual_params@),
                    prev_objective: previous_objective,
                    converged: converged,
                    done: false,
                },
            ));
        }

        let max_iterations = self.config.foce_max_iterations;
        let mut iteration: usize = 0;
        let mut broke = false;
        while iteration < max_iterations && !broke
            invariant
                0 <= iteration <= max_iterations,
                mt == self.model.model_type,
                inds == dataset.individuals@,
                cfg == self.config,
                *self == *old(self),
                max_iterations == cfg.foce_max_iterations,
                n_params == n_params_spec(mt),
                n_individuals == inds.len(),
                crate::data::obs_count_from(inds, 0) <= usize::MAX,
                current_params.fixed_effects@.len() == n_params,
                square_spec(current_params.random_effects_variance@, n_params as int),
                individual_params@.len() == inds.len(),
                forall|t: int|
                    0 <= t < individual_params@.len() ==> (
                    #[trigger] individual_params@[t])@.len() == n_params,
                !broke ==> foce_iter_spec(mt, inds, cfg, iteration as nat) == Ok::<
                    FoceState,
                    SolverError,
                >(
                    FoceState {
                        fe: current_params.fixed_effects@,
                        omega: rows_view(current_params.random_effects_variance@),
                        resid: current_params.residual_variance,
                        etas: rows_view(individual_params@),
                        prev_objective: previous_objective,
                        converged: converged,
                        done: false,
                    },
                ),
                broke ==> foce_iter_spec(mt, inds, cfg, cfg.foce_max_iterations as nat) == Ok::<
                    FoceState,
                    SolverError,
                >(
                    FoceState {
                        fe: current_params.fixed_effects@,
                        omega: rows_view(current_params.random_effects_variance@),
                        resid: current_params.residual_variance,
                        etas: rows_view(individual_params@),
                        prev_objective: previous_objective,
                        converged: converged,
                        done: true,
                    },
                ),
            decreases max_iterations - iteration + (if broke {
                0int
            } else {
                1int
            }),
        {
            let ghost st_before = FoceState {
                fe: current_params.fixed_effects@,
                omega: rows_view(current_params.random_effects_variance@),
                resid: current_params.residual_variance,
                etas: rows_view(individual_params@),
                prev_objective: previous_objective,
                converged: converged,
                done: false,
            };

            let fe_snapshot = crate::linalg::copy_vec(&current_params.fixed_effects);
            let omega_snapshot = crate::linalg::copy_mat(&current_params.random_effects_variance);
            let resid_snapshot = current_params.residual_variance;
            proof {
                assert(rows_view(omega_snapshot@) =~~= rows_view(
                    current_params.random_effects_variance@,
                ));
            }
            let estep = self.estimate_individual_parameters(
                dataset,
                &fe_snapshot,
                &omega_snapshot,
                resid_snapshot,
                &mut individual_params,
            );
            match estep {
                Ok(()) => {},
                Err(e) => {
                    proof {
                        assert(foce_step_spec(mt, inds, cfg, st_before, n_params as int) == Err::<
                            FoceState,
                            SolverError,
                        >(e));
                        assert(foce_iter_spec(mt, inds, cfg, (iteration + 1) as nat) == Err::<
                            FoceState,
                            SolverError,
                        >(e));
                        lemma_foce_err_freeze(
                            mt,
                            inds,
                            cfg,
                            (iteration + 1) as nat,
                            cfg.foce_max_iterations as nat,
                            e,
                        );
                    }
                    return Err(e);
                },
            }

            let mstep = self.update_population_parameters(
                dataset,
                &individual_params,
                &mut current_params,
            );
            let objective = match mstep {
                Ok(v) => v,
                Err(e) => {
                    proof {
                        assert(foce_step_spec(mt, inds, cfg, st_before, n_params as int) == Err::<
                            FoceState,
                            SolverError,
                        >(e));
                        assert(foce_iter_spec(mt, inds, cfg, (iteration + 1) as nat) == Err::<
                            FoceState,
                            SolverError,
                        >(e));
                        lemma_foce_err_freeze(
                            mt,
                            inds,
                            cfg,
                            (iteration + 1) as nat,
                            cfg.foce_max_iterations as nat,
                            e,
                        );
                    }
                    return Err(e);
                },
            };

            proof {
                assert(rows_view(current_params.random_effects_variance@) == (match foce_mstep_spec(
                    mt,
                    inds,
                    rows_view(individual_params@),
                    n_params as int,
                    st_before.resid,
                    st_before.omega,
                ) {
                    Ok(ms) => ms.omega,
                    Err(_) => Seq::empty(),
                }));
                assert(current_params.random_effects_variance@.len() == n_params);
                assert forall|t: int| 0 <= t < n_params implies (
                #[trigger] current_params.random_effects_variance@[t])@.len() == n_params by {
                    assert(rows_view(current_params.random_effects_variance@)[t]
                        == current_params.random_effects_variance@[t]@);
                }
            }
            let objective_change = fp::abs(fp::sub(previous_objective, objective));
            let relative_change = fp::div(objective_change, fp::abs(previous_objective));

            let mut hit = false;
            if fp::lt(relative_change, self.config.foce_tolerance) {
                converged = true;
                hit = true;
            } else {
                previous_objective = objective;
            }

            proof {
                let st_after = FoceState {
                    fe: current_params.fixed_effects@,
                    omega: rows_view(current_params.random_effects_variance@),
                    resid: current_params.residual_variance,
                    etas: rows_view(individual_params@),
                    prev_objective: previous_objective,
                    converged: converged,
                    done: hit,
                };
                assert(foce_step_spec(mt, inds, cfg, st_before, n_params as int) == Ok::<
                    FoceState,
                    SolverError,
                >(st_after));
                assert(foce_iter_spec(mt, inds, cfg, (iteration + 1) as nat) == Ok::<
                    FoceState,
                    SolverError,
                >(st_after));
            }

            iteration = iteration + 1;
            if hit {
                broke = true;
                proof {
                    lemma_foce_freeze(mt, inds, cfg, iteration as nat, cfg.foce_max_iterations as nat);
                }
            }
        }

        let ghost st_final = FoceState {
            fe: current_params.fixed_effects@,
            omega: rows_view(current_params.random_effects_variance@),
            resid: current_params.residual_variance,
            etas: rows_view(individual_params@),
            prev_objective: previous_objective,
            converged: converged,
            done: broke,
        };
        proof {
            assert(foce_iter_spec(mt, inds, cfg, cfg.foce_max_iterations as nat) == Ok::<
                FoceState,
                SolverError,
            >(st_final));
        }

        let final_objective = match self.calculate_objective_function(
            dataset,
            &individual_params,
            &current_params.fixed_effects,
            &current_params.random_effects_variance,
            current_params.residual_variance,
        ) {
            Ok(v) => v,
            Err(e) => {
                proof {
                    assert(objective_from(
                        mt,
                        inds,
                        st_final.etas,
                        st_final.fe,
                        st_final.omega,
                        st_final.resid,
                        0,
                        F_ZERO,
                    ) == Err::<u64, SolverError>(e));
                }
                return Err(e);
            },
        };

        let cov = match self.estimate_covariance_matrix(
            dataset,
            &individual_params,
            &current_params.fixed_effects,
            &current_params.random_effects_variance,
            current_params.residual_variance,
        ) {
            Ok(p) => p,
            Err(e) => {
                proof {
                    assert(exists|i: int, j: int|
                        0 <= i < n_params_spec(mt) && 0 <= j < n_params_spec(mt)
                            && #[trigger] fisher_cell_spec(
                            mt,
                            inds,
                            st_final.etas,
                            st_final.fe,
                            st_final.omega,
                            st_final.resid,
                            i,
                            j,
                        ) == Err::<u64, SolverError>(e));
                }
                return Err(e);
            },
        };
        let (covariance_matrix, standard_errors) = cov;

        let mut results = FoceResults::new(n_params, names);
        results.fixed_effects = crate::linalg::copy_vec(&current_params.fixed_effects);
        results.random_effects_variance = crate::linalg::copy_mat(
            &current_params.random_effects_variance,
        );
        results.residual_variance = current_params.residual_variance;
        results.objective_function_value = final_objective;
        results.final_log_likelihood = fp::div(fp::neg(final_objective), F_TWO);
        results.converged = converged;
        results.n_iterations = max_iterations;

        let mut stored: Vec<(i32, Vec<u64>)> = Vec::new();
        for j in 0..n_individuals
            invariant
                n_individuals == inds.len(),
                inds == dataset.individuals@,
                individual_params@.len() == inds.len(),
                stored@.len() == j,
                forall|t: int|
                    0 <= t < j ==> (#[trigger] stored@[t]).0 == inds[t].id && stored@[t].1@
                        == individual_params@[t]@,
        {
            stored.push(
                (dataset.individuals[j].id, crate::linalg::copy_vec(&individual_params[j])),
            );
        }
        results.individual_parameters = stored;
        results.covariance_matrix = covariance_matrix;
        results.standard_errors = standard_errors;

        proof {
            assert(rows_view(results.random_effects_variance@) =~~= st_final.omega);
            assert(rows_view(results.covariance_matrix@) =~~= rows_view(
                results.covariance_matrix@,
            ));
            assert(foce_results_match(
                mt,
                inds,
                cfg,
                st_final,
                final_objective,
                rows_view(results.covariance_matrix@),
                results,
            ));
            assert(foce_fit_post(mt, inds, cfg, Ok::<FoceResults, SolverError>(results)));
        }
        Ok(results)
    }
}

} // verus!
