// The SAEM and FOCE estimators end to end, the gain schedule, and the
// command-line parsers.

use nmodes::config::{EstimationConfig, EstimationMethod};
use nmodes::data::{Dataset, DosingRecord, DosingType, Individual, Observation, ObservationType};
use nmodes::foce::{FoceEstimator, FoceResults};
use nmodes::mcmc::{McmcConfig, McmcSampler};
use nmodes::models::{CompartmentModel, ModelType};
use nmodes::parse::{parse_estimation_method, parse_estimation_methods, parse_model_type,
    parse_model_types};
use nmodes::saem::{saem_gain, SaemEstimator};
use nmodes::solver::RungeKuttaSolver;

fn b(x: f64) -> u64 {
    x.to_bits()
}

fn f(x: u64) -> f64 {
    f64::from_bits(x)
}

/// A one-compartment, single-individual dataset: one bolus dose of 100 at
/// time zero and three concentration measurements.
fn synthetic_dataset() -> Dataset {
    let obs = vec![
        Observation::new(b(1.0), b(60.0), 1, ObservationType::Concentration),
        Observation::new(b(2.0), b(36.0), 1, ObservationType::Concentration),
        Observation::new(b(4.0), b(13.0), 1, ObservationType::Concentration),
    ];
    let doses = vec![DosingRecord::new(b(0.0), b(100.0), 1, DosingType::Bolus)];
    let individual = Individual::new(1, obs, doses, Vec::new());
    Dataset::new(vec![individual], Vec::new())
}

#[test]
fn test_full_pipeline() {
    let dataset = synthetic_dataset();
    assert!(dataset.n_individuals() > 0);
    assert!(dataset.n_observations() > 0);

    let model = CompartmentModel::new(ModelType::OneCompartment).expect("Failed to create model");
    let config = EstimationConfig::default().with_iterations(10).with_burnin(2);

    let mut estimator = SaemEstimator::new(model, config);
    let results = estimator.fit(&dataset).expect("Estimation failed");

    assert_eq!(results.fixed_effects.len(), 2);
    assert!(results.n_iterations > 0);
    assert!(!results.log_likelihood_trajectory.is_empty());
}

#[test]
fn test_foce_estimator_creation() {
    let model = CompartmentModel::new(ModelType::OneCompartment).unwrap();
    let config = EstimationConfig::default().with_method(EstimationMethod::Foce);

    let estimator = FoceEstimator::new(model, config);
    assert_eq!(estimator.model().n_compartments(), 1);
}

#[test]
fn test_foce_results_creation() {
    let param_names = vec!["CL".to_string(), "V".to_string()];
    let results = FoceResults::new(2, param_names);

    assert_eq!(results.fixed_effects.len(), 2);
    assert_eq!(results.parameter_names.len(), 2);
    assert!(!results.converged);
}

#[test]
fn gain_is_one_through_burnin_then_strictly_decreasing() {
    for t in 0..200 {
        assert_eq!(saem_gain(t, 200), b(1.0));
    }
    let mut prev = f(saem_gain(200, 200));
    assert_eq!(prev, 1.0);
    for t in 201..260 {
        let g = f(saem_gain(t, 200));
        assert!(g < prev, "gain must strictly decrease at {t}");
        prev = g;
    }
}

#[test]
fn saem_runs_are_reproducible_for_a_fixed_seed() {
    let dataset = synthetic_dataset();
    let config = EstimationConfig::default()
        .with_iterations(5)
        .with_burnin(1)
        .with_seed(Some(4242));

    let model1 = CompartmentModel::new(ModelType::OneCompartment).unwrap();
    let mut estimator1 = SaemEstimator::new(model1, config.clone());
    let run1 = estimator1.fit(&dataset).unwrap();

    let model2 = CompartmentModel::new(ModelType::OneCompartment).unwrap();
    let mut estimator2 = SaemEstimator::new(model2, config);
    let run2 = estimator2.fit(&dataset).unwrap();

    assert_eq!(run1.parameter_trajectory, run2.parameter_trajectory);
    assert_eq!(run1.log_likelihood_trajectory, run2.log_likelihood_trajectory);
    assert_eq!(run1.fixed_effects, run2.fixed_effects);
    assert_eq!(run1.residual_variance, run2.residual_variance);
    assert_eq!(run1.converged, run2.converged);
}

#[test]
fn saem_recovers_the_synthetic_concentrations() {
    let dataset = synthetic_dataset();
    let model = CompartmentModel::new(ModelType::OneCompartment).unwrap();
    let config = EstimationConfig::default()
        .with_iterations(50)
        .with_burnin(10)
        .with_seed(Some(12345));

    let mut estimator = SaemEstimator::new(model, config);
    let results = estimator.fit(&dataset).expect("Estimation failed");
    assert!(results.n_iterations <= 50);

    let model = CompartmentModel::new(ModelType::OneCompartment).unwrap();
    let solver = RungeKuttaSolver::new();
    let sampler = McmcSampler::new(&model, &solver, McmcConfig::default());
    let individual = &dataset.individuals()[0];
    let predictions = sampler
        .predict_concentrations(individual, &results.fixed_effects)
        .expect("prediction failed");

    let observed = [60.0, 36.0, 13.0];
    for (k, &obs) in observed.iter().enumerate() {
        let pred = f(predictions[k]);
        let relative = ((pred - obs) / obs).abs();
        assert!(
            relative < 0.2,
            "prediction {pred} strays from {obs} by {relative}"
        );
    }
}

/// Three individuals around the synthetic profile, so that the empirical
/// covariance of the deviations stays positive.
fn population_dataset() -> Dataset {
    let mut individuals = Vec::new();
    let profiles: [[f64; 3]; 3] = [[60.0, 36.0, 13.0], [55.0, 30.0, 11.0], [70.0, 42.0, 16.0]];
    for (k, values) in profiles.iter().enumerate() {
        let obs = vec![
            Observation::new(b(1.0), b(values[0]), 1, ObservationType::Concentration),
            Observation::new(b(2.0), b(values[1]), 1, ObservationType::Concentration),
            Observation::new(b(4.0), b(values[2]), 1, ObservationType::Concentration),
        ];
        let doses = vec![DosingRecord::new(b(0.0), b(100.0), 1, DosingType::Bolus)];
        individuals.push(Individual::new(k as i32 + 1, obs, doses, Vec::new()));
    }
    Dataset::new(individuals, Vec::new())
}

#[test]
fn foce_runs_are_deterministic() {
    let dataset = population_dataset();
    let config = EstimationConfig::default()
        .with_method(EstimationMethod::Foce)
        .with_foce_iterations(3);

    let model1 = CompartmentModel::new(ModelType::OneCompartment).unwrap();
    let mut estimator1 = FoceEstimator::new(model1, config.clone());
    let run1 = estimator1.fit(&dataset).expect("FOCE failed");

    let model2 = CompartmentModel::new(ModelType::OneCompartment).unwrap();
    let mut estimator2 = FoceEstimator::new(model2, config);
    let run2 = estimator2.fit(&dataset).expect("FOCE failed");

    assert_eq!(run1.fixed_effects, run2.fixed_effects);
    assert_eq!(run1.objective_function_value, run2.objective_function_value);
    assert_eq!(run1.covariance_matrix, run2.covariance_matrix);
    assert_eq!(run1.standard_errors, run2.standard_errors);
    assert_eq!(run1.n_iterations, 3);
    assert!(!run1.converged);
}

#[test]
fn foce_reports_covariance_and_standard_errors() {
    let dataset = population_dataset();
    let model = CompartmentModel::new(ModelType::OneCompartment).unwrap();
    let config = EstimationConfig::default()
        .with_method(EstimationMethod::Foce)
        .with_foce_iterations(3);
    let mut estimator = FoceEstimator::new(model, config);
    let results = estimator.fit(&dataset).expect("FOCE failed");

    assert_eq!(results.covariance_matrix.len(), 2);
    assert_eq!(results.standard_errors.len(), 2);
    assert_eq!(
        results.final_log_likelihood,
        nmodes::fp::div(nmodes::fp::neg(results.objective_function_value), nmodes::fp::F_TWO)
    );
}

#[test]
fn parser_accepts_the_documented_words() {
    assert_eq!(parse_model_type("1comp"), Ok(ModelType::OneCompartment));
    assert_eq!(parse_model_type("2comp"), Ok(ModelType::TwoCompartment));
    assert_eq!(parse_model_type("3comp"), Ok(ModelType::ThreeCompartment));
    assert!(parse_model_type("4comp").is_err());

    assert_eq!(parse_estimation_method("saem"), Ok(EstimationMethod::Saem));
    assert_eq!(parse_estimation_method("foce"), Ok(EstimationMethod::Foce));
    assert_eq!(parse_estimation_method("foce-i"), Ok(EstimationMethod::FoceI));
    assert!(parse_estimation_method("mcmc").is_err());

    let words = vec!["2comp".to_string(), "2comp".to_string(), "1comp".to_string()];
    assert_eq!(
        parse_model_types(&words),
        Ok(vec![ModelType::TwoCompartment, ModelType::OneCompartment])
    );
    let all = vec!["all".to_string()];
    assert_eq!(
        parse_model_types(&all).map(|v| v.len()),
        Ok(3)
    );
    assert_eq!(
        parse_model_types(&Vec::new()),
        Ok(vec![ModelType::OneCompartment])
    );
    assert_eq!(
        parse_estimation_methods(&Vec::new()),
        Ok(vec![EstimationMethod::Saem])
    );
}

#[test]
fn mcmc_sampling_is_reproducible_for_a_fixed_seed() {
    let dataset = synthetic_dataset();
    let individual = &dataset.individuals()[0];
    let model = CompartmentModel::new(ModelType::OneCompartment).unwrap();
    let solver = RungeKuttaSolver::new();
    let pop = model.default_parameters();
    let init = pop.get_fixed_effects_vector();
    let mut config = McmcConfig::default();
    config.seed = Some(99);
    config.n_samples = 25;

    let mut s1 = McmcSampler::new(&model, &solver, config.clone());
    let r1 = s1.sample_individual_parameters(individual, &pop, &init).unwrap();
    let mut s2 = McmcSampler::new(&model, &solver, config);
    let r2 = s2.sample_individual_parameters(individual, &pop, &init).unwrap();
    assert_eq!(r1, r2);
    // The chain must have moved somewhere: a sampler that ignored its draws
    // would return the start unchanged with overwhelming improbability.
    assert!(r1.0 != init || f(r1.1).is_finite());
}

#[test]
fn diagnostics_report_information_criteria() {
    let dataset = synthetic_dataset();
    let model = CompartmentModel::new(ModelType::OneCompartment).unwrap();
    let config = EstimationConfig::default().with_iterations(5).with_burnin(1);
    let mut estimator = SaemEstimator::new(model, config);
    let results = estimator.fit(&dataset).unwrap();

    let diagnostics = nmodes::diagnostics::generate_diagnostics(&dataset, &results).unwrap();
    let ll = f(results.final_log_likelihood);
    let aic = f(diagnostics.goodness_of_fit.aic);
    let bic = f(diagnostics.goodness_of_fit.bic);
    assert_eq!(aic, -2.0 * ll + 2.0 * 2.0);
    assert_eq!(bic, -2.0 * ll + 2.0 * 100.0_f64.ln());
    assert_eq!(
        diagnostics.convergence_diagnostics.final_iteration,
        results.n_iterations
    );
    assert_eq!(diagnostics.residual_analysis.residuals.len(), 5);
}
