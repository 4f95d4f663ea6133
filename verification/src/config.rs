//! Estimation settings shared by the SAEM and FOCE estimators.

use vstd::prelude::*;

use crate::fp;
use crate::fp::{fle, F_ONE, F_ZERO};

verus! {

/// Which estimation method runs.
#[derive(Debug, Clone, Copy, PartialEq, Eq, Structural)]
pub enum EstimationMethod {
    Saem,
    Foce,
    FoceI,
}

/// All knobs of an estimation run; real-valued fields are binary64 bit
/// patterns.
#[derive(Debug, Clone)]
pub struct EstimationConfig {
    pub method: EstimationMethod,
    pub n_iterations: usize,
    pub n_burnin: usize,
    pub n_chains: usize,
    pub mcmc_samples_per_iteration: usize,
    pub step_size: u64,
    pub target_acceptance: u64,
    pub adaptation_interval: usize,
    pub convergence_tolerance: u64,
    pub max_retries: usize,
    pub seed: Option<u64>,
    pub foce_max_iterations: usize,
    pub foce_tolerance: u64,
    pub foce_step_size: u64,
    pub foce_interaction: bool,
}

/// The stock configuration values.
pub open spec fn is_default_config(c: EstimationConfig) -> bool {
    &&& c.method == EstimationMethod::Saem
    &&& c.n_iterations == 1000usize
    &&& c.n_burnin == 200usize
    &&& c.n_chains == 4usize
    &&& c.mcmc_samples_per_iteration == 10usize
    &&& c.step_size == fp::F_TENTH
    &&& c.target_acceptance == fp::F_POINT_44
    &&& c.adaptation_interval == 50usize
    &&& c.convergence_tolerance == fp::F_POINT_001
    &&& c.max_retries == 3usize
    &&& c.seed == Some(12345u64)
    &&& c.foce_max_iterations == 100usize
    &&& c.foce_tolerance == fp::F_1E_NEG_6
    &&& c.foce_step_size == fp::F_1E_NEG_4
    &&& c.foce_interaction == false
}

/// What `validate` must return: the first violated constraint, checked in a
/// fixed order, or `Ok` when every constraint holds.
pub open spec fn validate_config_post(c: EstimationConfig, r: Result<(), String>) -> bool {
    if c.n_iterations == 0 {
        r matches Err(m) && m@ == "Number of iterations must be positive"@
    } else if c.n_burnin >= c.n_iterations {
        r matches Err(m) && m@ == "Burn-in period must be less than total iterations"@
    } else if c.n_chains == 0 {
        r matches Err(m) && m@ == "Number of chains must be positive"@
    } else if fle(c.step_size, F_ZERO) {
        r matches Err(m) && m@ == "Step size must be positive"@
    } else if !(fle(F_ZERO, c.target_acceptance) && fle(c.target_acceptance, F_ONE)) {
        r matches Err(m) && m@ == "Target acceptance rate must be between 0 and 1"@
    } else if c.foce_max_iterations == 0 {
        r matches Err(m) && m@ == "FOCE max iterations must be positive"@
    } else if fle(c.foce_tolerance, F_ZERO) {
        r matches Err(m) && m@ == "FOCE tolerance must be positive"@
    } else if fle(c.foce_step_size, F_ZERO) {
        r matches Err(m) && m@ == "FOCE step size must be positive"@
    } else {
        r matches Ok(())
    }
}

impl Default for EstimationConfig {
    /// The stock configuration: SAEM, a thousand iterations with a 200
    /// iteration burn-in, a fixed default seed for reproducibility.
    fn default() -> (r: Self)
        ensures
            is_default_config(r),
    {
        EstimationConfig {
            method: EstimationMethod::Saem,
            n_iterations: 1000,
            n_burnin: 200,
            n_chains: 4,
            mcmc_samples_per_iteration: 10,
            step_size: fp::F_TENTH,
            target_acceptance: fp::F_POINT_44,
            adaptation_interval: 50,
            convergence_tolerance: fp::F_POINT_001,
            max_retries: 3,
            seed: Some(12345),
            foce_max_iterations: 100,
            foce_tolerance: fp::F_1E_NEG_6,
            foce_step_size: fp::F_1E_NEG_4,
            foce_interaction: false,
        }
    }
}

impl EstimationConfig {
    /// The stock configuration; see `Default`.
    pub fn new() -> (r: Self)
        ensures
            is_default_config(r),
    {
        Self::default()
    }

    pub fn with_method(self, method: EstimationMethod) -> (r: Self)
        ensures
            r == (EstimationConfig { method, ..self }),
    {
        EstimationConfig { method, ..self }
    }

    pub fn with_iterations(self, n_iterations: usize) -> (r: Self)
        ensures
            r == (EstimationConfig { n_iterations, ..self }),
    {
        EstimationConfig { n_iterations, ..self }
    }

    pub fn with_burnin(self, n_burnin: usize) -> (r: Self)
        ensures
            r == (EstimationConfig { n_burnin, ..self }),
    {
        EstimationConfig { n_burnin, ..self }
    }

    pub fn with_chains(self, n_chains: usize) -> (r: Self)
        ensures
            r == (EstimationConfig { n_chains, ..self }),
    {
        EstimationConfig { n_chains, ..self }
    }

    pub fn with_step_size(self, step_size: u64) -> (r: Self)
        ensures
            r == (EstimationConfig { step_size, ..self }),
    {
        EstimationConfig { step_size, ..self }
    }

    pub fn with_seed(self, seed: Option<u64>) -> (r: Self)
        ensures
            r == (EstimationConfig { seed, ..self }),
    {
        EstimationConfig { seed, ..self }
    }

    pub fn with_foce_iterations(self, foce_max_iterations: usize) -> (r: Self)
        ensures
            r == (EstimationConfig { foce_max_iterations, ..self }),
    {
        EstimationConfig { foce_max_iterations, ..self }
    }

    pub fn with_foce_tolerance(self, foce_tolerance: u64) -> (r: Self)
        ensures
            r == (EstimationConfig { foce_tolerance, ..self }),
    {
        EstimationConfig { foce_tolerance, ..self }
    }

    pub fn with_foce_interaction(self, foce_interaction: bool) -> (r: Self)
        ensures
            r == (EstimationConfig { foce_interaction, ..self }),
    {
        EstimationConfig { foce_interaction, ..self }
    }

    /// Checks every constraint on the settings, in a fixed order.
    pub fn validate(&self) -> (r: Result<(), String>)
        ensures
            validate_config_post(*self, r),
    {
        if self.n_iterations == 0 {
            return Err("Number of iterations must be positive".to_owned());
        }
        if self.n_burnin >= self.n_iterations {
            return Err("Burn-in period must be less than total iterations".to_owned());
        }
        if self.n_chains == 0 {
            return Err("Number of chains must be positive".to_owned());
        }
        if fp::le(self.step_size, F_ZERO) {
            return Err("Step size must be positive".to_owned());
        }
        if !(fp::le(F_ZERO, self.target_acceptance) && fp::le(self.target_acceptance, F_ONE)) {
            return Err("Target acceptance rate must be between 0 and 1".to_owned());
        }
        if self.foce_max_iterations == 0 {
            return Err("FOCE max iterations must be positive".to_owned());
        }
        if fp::le(self.foce_tolerance, F_ZERO) {
            return Err("FOCE tolerance must be positive".to_owned());
        }
        if fp::le(self.foce_step_size, F_ZERO) {
            return Err("FOCE step size must be positive".to_owned());
        }
        Ok(())
    }
}

} // verus!
