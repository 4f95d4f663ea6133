//! Population pharmacokinetic model fitting: compartment models, a fixed-step
//! Runge-Kutta integrator, and SAEM / FOCE population-parameter estimators.
//!
//! Real numbers are carried throughout as their IEEE 754 binary64 bit
//! patterns (`u64`); every arithmetic step goes through a trusted operation
//! whose result is pinned to an uninterpreted function of the operand bits,
//! so each numerical routine has an exact, deterministic functional contract.

pub mod config;
pub mod data;
pub mod diagnostics;
pub mod foce;
pub mod fp;
pub mod linalg;
pub mod mcmc;
pub mod models;
pub mod parse;
pub mod rng;
pub mod saem;
pub mod solver;
pub mod validation;

pub use config::{EstimationConfig, EstimationMethod};
pub use data::{Dataset, DosingRecord, DosingType, Individual, Observation, ObservationType};
pub use diagnostics::{generate_diagnostics, DiagnosticResults};
pub use foce::{FoceEstimator, FoceResults};
pub use mcmc::{McmcConfig, McmcSampler};
pub use parse::{parse_estimation_method, parse_estimation_methods, parse_model_type, parse_model_types};
pub use models::{CompartmentModel, ModelParameters, ModelState, ModelType};
pub use saem::{SaemEstimator, SaemResults};
pub use solver::{RungeKuttaSolver, SolverConfig, SolverError};

