//! Post-hoc diagnostics over estimation results: information criteria,
//! residual summaries and a convergence report.  The residual analysis works
//! on stand-in values pending observed-versus-predicted bookkeeping, as the
//! fit summaries do for their error metrics.

use vstd::prelude::*;

use crate::data::Dataset;
use crate::fp;
use crate::fp::{f_abs_bits, f_from_u64, fadd, fdiv, fln, fmul, fsqrt, fsub, F_ONE, F_ZERO};
use crate::linalg::sum_from;
use crate::saem::{sq_dev_sum_from, SaemResults, F_NEG_TWO};

verus! {

/// Bits of 0.8.
pub const F_POINT_8: u64 = 0x3FE999999999999A;
/// Bits of 0.95.
pub const F_POINT_95: u64 = 0x3FEE666666666666;
/// Bits of 0.05.
pub const F_POINT_05: u64 = 0x3FA999999999999A;
/// Bits of 0.15.
pub const F_POINT_15: u64 = 0x3FC3333333333333;
/// Bits of -0.2.
pub const F_NEG_POINT_2: u64 = 0xBFC999999999999A;
/// Bits of -0.1.
pub const F_NEG_POINT_1: u64 = 0xBFB999999999999A;

/// Fit-quality summary numbers.
#[derive(Debug, Clone)]
pub struct GoodnessOfFitMetrics {
    pub aic: u64,
    pub bic: u64,
    pub log_likelihood: u64,
    pub rmse: u64,
    pub mae: u64,
    pub r_squared: u64,
}

/// Moments of the residual sample.
#[derive(Debug, Clone)]
pub struct ResidualStatistics {
    pub mean: u64,
    pub std_dev: u64,
    pub skewness: u64,
    pub kurtosis: u64,
}

/// Residuals in raw, standardized and weighted form.
#[derive(Debug, Clone)]
pub struct ResidualAnalysis {
    pub residuals: Vec<u64>,
    pub standardized_residuals: Vec<u64>,
    pub weighted_residuals: Vec<u64>,
    pub residual_statistics: ResidualStatistics,
}

/// How the run ended and how stable its tail was.
#[derive(Debug, Clone)]
pub struct ConvergenceDiagnostics {
    pub converged: bool,
    pub final_iteration: usize,
    pub parameter_stability: Vec<u64>,
    pub log_likelihood_stability: u64,
}

/// Everything the diagnostics report carries.
#[derive(Debug, Clone)]
pub struct DiagnosticResults {
    pub goodness_of_fit: GoodnessOfFitMetrics,
    pub residual_analysis: ResidualAnalysis,
    pub convergence_diagnostics: ConvergenceDiagnostics,
}

/// The Akaike criterion: minus twice the log-likelihood plus twice the
/// parameter count.
pub open spec fn aic_spec(ll: u64, n_params: int) -> u64 {
    fadd(fmul(F_NEG_TWO, ll), fmul(fp::F_TWO, f_from_u64(n_params as u64)))
}

/// The Bayesian criterion against the stand-in observation count of one
/// hundred.
pub open spec fn bic_spec(ll: u64, n_params: int) -> u64 {
    fadd(fmul(F_NEG_TWO, ll), fmul(f_from_u64(n_params as u64), fln(f_from_u64(100))))
}

/// The stand-in residual sample the analysis summarizes.
pub open spec fn placeholder_residuals() -> Seq<u64> {
    seq![fp::F_TENTH, F_NEG_POINT_2, F_POINT_05, F_NEG_POINT_1, F_POINT_15]
}

/// The trailing-window stability of the log-likelihood trajectory: the
/// coefficient of variation of the last hundred values, or one when fewer
/// than two are stored.
pub open spec fn ll_stability_spec(ll_traj: Seq<u64>) -> u64 {
    let n_recent: int = if ll_traj.len() < 100 {
        ll_traj.len() as int
    } else {
        100
    };
    if n_recent > 1 {
        let recent = ll_traj.subrange(ll_traj.len() - n_recent, ll_traj.len() as int);
        let mean = fdiv(sum_from(recent, 0, F_ZERO), f_from_u64(n_recent as u64));
        let variance = fdiv(
            sq_dev_sum_from(recent, mean, 0, F_ZERO),
            f_from_u64((n_recent - 1) as u64),
        );
        fdiv(fsqrt(variance), f_abs_bits(mean))
    } else {
        F_ONE
    }
}

/// Builds the diagnostics report for a SAEM run: information criteria from
/// the final log-likelihood, the residual summary, and the tail stability of
/// the trajectory.
pub fn generate_diagnostics(dataset: &Dataset, results: &SaemResults) -> (r: Result<
    DiagnosticResults,
    String,
>)
    ensures
        r matches Ok(d) && diagnostics_post(*results, d),
{
    let gof = calculate_goodness_of_fit(dataset, results);
    let residual_analysis = analyze_residuals(dataset, results);
    let convergence_diagnostics = assess_convergence(results);
    Ok(
        DiagnosticResults {
            goodness_of_fit: gof,
            residual_analysis,
            convergence_diagnostics,
        },
    )
}

/// What a diagnostics report must hold for the results it describes.
pub open spec fn diagnostics_post(results: SaemResults, d: DiagnosticResults) -> bool {
    let n_params = results.fixed_effects@.len() as int;
    let res = placeholder_residuals();
    let mean = fdiv(sum_from(res, 0, F_ZERO), f_from_u64(res.len() as u64));
    let variance = fdiv(
        sq_dev_sum_from(res, mean, 0, F_ZERO),
        f_from_u64((res.len() - 1) as u64),
    );
    let std_dev = fsqrt(variance);
    &&& d.goodness_of_fit.aic == aic_spec(results.final_log_likelihood, n_params)
    &&& d.goodness_of_fit.bic == bic_spec(results.final_log_likelihood, n_params)
    &&& d.goodness_of_fit.log_likelihood == results.final_log_likelihood
    &&& d.goodness_of_fit.rmse == F_ONE
    &&& d.goodness_of_fit.mae == F_POINT_8
    &&& d.goodness_of_fit.r_squared == F_POINT_95
    &&& d.residual_analysis.residuals@ == res
    &&& d.residual_analysis.standardized_residuals@ == Seq::new(
        res.len(),
        |i: int| fdiv(res[i], std_dev),
    )
    &&& d.residual_analysis.weighted_residuals@ == res
    &&& d.residual_analysis.residual_statistics.mean == mean
    &&& d.residual_analysis.residual_statistics.std_dev == std_dev
    &&& d.residual_analysis.residual_statistics.skewness == F_ZERO
    &&& d.residual_analysis.residual_statistics.kurtosis == fp::F_THREE
    &&& d.convergence_diagnostics.converged == results.converged
    &&& d.convergence_diagnostics.final_iteration == results.n_iterations
    &&& d.convergence_diagnostics.parameter_stability@ == Seq::new(
        results.fixed_effects@.len(),
        |i: int| fp::F_POINT_01,
    )
    &&& d.convergence_diagnostics.log_likelihood_stability == ll_stability_spec(
        results.log_likelihood_trajectory@,
    )
}

/// Information criteria from the final log-likelihood; the error metrics are
/// stand-ins pending observed-versus-predicted bookkeeping.
fn calculate_goodness_of_fit(_dataset: &Dataset, results: &SaemResults) -> (r:
    GoodnessOfFitMetrics)
    ensures
        r.aic == aic_spec(results.final_log_likelihood, results.fixed_effects@.len() as int),
        r.bic == bic_spec(results.final_log_likelihood, results.fixed_effects@.len() as int),
        r.log_likelihood == results.final_log_likelihood,
        r.rmse == F_ONE,
        r.mae == F_POINT_8,
        r.r_squared == F_POINT_95,
{
    let n_params = results.fixed_effects.len();
    let ll = results.final_log_likelihood;
    let minus_two_ll = fp::mul(F_NEG_TWO, ll);
    let k_f = fp::from_u64(n_params as u64);
    GoodnessOfFitMetrics {
        aic: fp::add(minus_two_ll, fp::mul(fp::F_TWO, k_f)),
        bic: fp::add(minus_two_ll, fp::mul(k_f, fp::ln(fp::from_u64(100)))),
        log_likelihood: ll,
        rmse: F_ONE,
        mae: F_POINT_8,
        r_squared: F_POINT_95,
    }
}

/// Summarizes the stand-in residual sample.
fn analyze_residuals(_dataset: &Dataset, _results: &SaemResults) -> (r: ResidualAnalysis)
    ensures
        ({
            let res = placeholder_residuals();
            let mean = fdiv(sum_from(res, 0, F_ZERO), f_from_u64(res.len() as u64));
            let variance = fdiv(
                sq_dev_sum_from(res, mean, 0, F_ZERO),
                f_from_u64((res.len() - 1) as u64),
            );
            let std_dev = fsqrt(variance);
            &&& r.residuals@ == res
            &&& r.standardized_residuals@ == Seq::new(res.len(), |i: int| fdiv(res[i], std_dev))
            &&& r.weighted_residuals@ == res
            &&& r.residual_statistics.mean == mean
            &&& r.residual_statistics.std_dev == std_dev
            &&& r.residual_statistics.skewness == F_ZERO
            &&& r.residual_statistics.kurtosis == fp::F_THREE
        }),
{
    let residuals: Vec<u64> = vec![
        fp::F_TENTH,
        F_NEG_POINT_2,
        F_POINT_05,
        F_NEG_POINT_1,
        F_POINT_15,
    ];
    proof {
        assert(residuals@ =~= placeholder_residuals());
    }
    let n = residuals.len();
    let mut acc = F_ZERO;
    for i in 0..n
        invariant
            n == residuals@.len(),
            residuals@ == placeholder_residuals(),
            sum_from(residuals@, 0, F_ZERO) == sum_from(residuals@, i as int, acc),
    {
        acc = fp::add(acc, residuals[i]);
    }
    let mean = fp::div(acc, fp::from_u64(n as u64));
    let mut acc2 = F_ZERO;
    for i in 0..n
        invariant
            n == residuals@.len(),
            residuals@ == placeholder_residuals(),
            sq_dev_sum_from(residuals@, mean, 0, F_ZERO) == sq_dev_sum_from(
                residuals@,
                mean,
                i as int,
                acc2,
            ),
    {
        let d = fp::sub(residuals[i], mean);
        acc2 = fp::add(acc2, fp::mul(d, d));
    }
    let variance = fp::div(acc2, fp::from_u64((n - 1) as u64));
    let std_dev = fp::sqrt(variance);

    let mut standardized: Vec<u64> = Vec::new();
    for i in 0..n
        invariant
            n == residuals@.len(),
            residuals@ == placeholder_residuals(),
            standardized@.len() == i,
            forall|k: int| 0 <= k < i ==> standardized@[k] == fdiv(residuals@[k], std_dev),
    {
        standardized.push(fp::div(residuals[i], std_dev));
    }
    proof {
        assert(standardized@ =~= Seq::new(
            placeholder_residuals().len(),
            |i: int| fdiv(placeholder_residuals()[i], std_dev),
        ));
    }

    let weighted = crate::linalg::copy_vec(&residuals);
    ResidualAnalysis {
        residuals,
        standardized_residuals: standardized,
        weighted_residuals: weighted,
        residual_statistics: ResidualStatistics {
            mean,
            std_dev,
            skewness: F_ZERO,
            kurtosis: fp::F_THREE,
        },
    }
}

/// Reports how the run ended and how stable its trailing log-likelihoods
/// were.
fn assess_convergence(results: &SaemResults) -> (r: ConvergenceDiagnostics)
    ensures
        r.converged == results.converged,
        r.final_iteration == results.n_iterations,
        r.parameter_stability@ == Seq::new(results.fixed_effects@.len(), |i: int| fp::F_POINT_01),
        r.log_likelihood_stability == ll_stability_spec(results.log_likelihood_trajectory@),
{
    let traj_len = results.log_likelihood_trajectory.len();
    let n_recent: usize = if traj_len < 100 {
        traj_len
    } else {
        100
    };
    let stability: u64 = if n_recent > 1 {
        let start = traj_len - n_recent;
        let ghost recent = results.log_likelihood_trajectory@.subrange(
            traj_len - n_recent,
            traj_len as int,
        );
        let mut acc = F_ZERO;
        for i in 0..n_recent
            invariant
                traj_len == results.log_likelihood_trajectory@.len(),
                n_recent <= traj_len,
                start == traj_len - n_recent,
                recent == results.log_likelihood_trajectory@.subrange(
                    traj_len - n_recent,
                    traj_len as int,
                ),
                sum_from(recent, 0, F_ZERO) == sum_from(recent, i as int, acc),
        {
            acc = fp::add(acc, results.log_likelihood_trajectory[start + i]);
        }
        let mean = fp::div(acc, fp::from_u64(n_recent as u64));
        let mut acc2 = F_ZERO;
        for i in 0..n_recent
            invariant
                traj_len == results.log_likelihood_trajectory@.len(),
                n_recent <= traj_len,
                start == traj_len - n_recent,
                recent == results.log_likelihood_trajectory@.subrange(
                    traj_len - n_recent,
                    traj_len as int,
                ),
                sq_dev_sum_from(recent, mean, 0, F_ZERO) == sq_dev_sum_from(
                    recent,
                    mean,
                    i as int,
                    acc2,
                ),
        {
            let d = fp::sub(results.log_likelihood_trajectory[start + i], mean);
            acc2 = fp::add(acc2, fp::mul(d, d));
        }
        let variance = fp::div(acc2, fp::from_u64((n_recent - 1) as u64));
        fp::div(fp::sqrt(variance), fp::abs(mean))
    } else {
        F_ONE
    };

    let mut parameter_stability: Vec<u64> = Vec::new();
    let n_params = results.fixed_effects.len();
    for i in 0..n_params
        invariant
            parameter_stability@.len() == i,
            forall|k: int| 0 <= k < i ==> parameter_stability@[k] == fp::F_POINT_01,
    {
        parameter_stability.push(fp::F_POINT_01);
    }
    proof {
        assert(parameter_stability@ =~= Seq::new(
            results.fixed_effects@.len(),
            |i: int| fp::F_POINT_01,
        ));
    }
    ConvergenceDiagnostics {
        converged: results.converged,
        final_iteration: results.n_iterations,
        parameter_stability,
        log_likelihood_stability: stability,
    }
}

} // verus!
