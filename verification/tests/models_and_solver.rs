// Model variants and the Runge-Kutta integrator.

use nmodes::models::{CompartmentModel, ModelError, ModelParameters, ModelState, ModelType,
    OneCompartmentModel, ThreeCompartmentModel, TwoCompartmentModel};
use nmodes::solver::{RungeKuttaSolver, SolverConfig, SolverError};

fn b(x: f64) -> u64 {
    x.to_bits()
}

fn f(x: u64) -> f64 {
    f64::from_bits(x)
}

/// A one-compartment model whose elimination rate constant is one, so that
/// the system is exactly `dy/dt = -y`.
fn unit_decay_params() -> ModelParameters {
    let model = OneCompartmentModel::new();
    let mut params = model.default_parameters();
    params.fixed_effects = vec![b(0.0), b(0.0)];
    params
}

#[test]
fn test_one_compartment_model() {
    let model = OneCompartmentModel::new();
    assert_eq!(model.n_compartments(), 1);
    assert_eq!(model.parameter_names(), vec!["CL", "V"]);

    let params = model.default_parameters();
    assert!(model.validate_parameters(&params).is_ok());
}

#[test]
fn test_derivatives() {
    let model = OneCompartmentModel::new();
    let params = model.default_parameters();
    let mut state = ModelState::new(1);
    state.compartments[0] = b(100.0);

    let derivatives = model.derivatives(&state, &params);
    assert_eq!(derivatives.len(), 1);
    assert!(f(derivatives[0]) < 0.0);
}

#[test]
fn test_observation_function() {
    let model = OneCompartmentModel::new();
    let params = model.default_parameters();
    let mut state = ModelState::new(1);
    state.compartments[0] = b(100.0);

    let conc = model.observation_function(&state, &params, 1);
    let v = f(params.fixed_effects[1]).exp();
    assert!((f(conc) - 100.0 / v).abs() < 1e-10);
}

#[test]
fn test_two_compartment_model() {
    let model = TwoCompartmentModel::new();
    assert_eq!(model.n_compartments(), 2);
    assert_eq!(model.parameter_names().len(), 4);

    let params = model.default_parameters();
    assert!(model.validate_parameters(&params).is_ok());
}

#[test]
fn test_two_compartment_derivatives() {
    let model = TwoCompartmentModel::new();
    let params = model.default_parameters();
    let mut state = ModelState::new(2);
    state.compartments[0] = b(100.0);
    state.compartments[1] = b(0.0);

    let derivatives = model.derivatives(&state, &params);
    assert_eq!(derivatives.len(), 2);
    assert!(f(derivatives[0]) < 0.0);
    assert!(f(derivatives[1]) > 0.0);
}

#[test]
fn test_three_compartment_model() {
    let model = ThreeCompartmentModel::new();
    assert_eq!(model.n_compartments(), 3);
    assert_eq!(model.parameter_names().len(), 6);

    let params = model.default_parameters();
    assert!(model.validate_parameters(&params).is_ok());
}

#[test]
fn test_three_compartment_derivatives() {
    let model = ThreeCompartmentModel::new();
    let params = model.default_parameters();
    let mut state = ModelState::new(3);
    state.compartments[0] = b(100.0);
    state.compartments[1] = b(0.0);
    state.compartments[2] = b(0.0);

    let derivatives = model.derivatives(&state, &params);
    assert_eq!(derivatives.len(), 3);
    assert!(f(derivatives[0]) < 0.0);
    assert!(f(derivatives[1]) > 0.0);
    assert!(f(derivatives[2]) > 0.0);
}

#[test]
fn test_model_comparison() {
    let models = vec![
        ModelType::OneCompartment,
        ModelType::TwoCompartment,
        ModelType::ThreeCompartment,
    ];

    for model_type in models {
        let model = CompartmentModel::new(model_type).expect("Failed to create model");

        let expected_compartments = match model_type {
            ModelType::OneCompartment => 1,
            ModelType::TwoCompartment => 2,
            ModelType::ThreeCompartment => 3,
        };

        assert_eq!(model.n_compartments(), expected_compartments);

        let params = model.default_parameters();
        assert!(model.validate_parameters(&params).is_ok());
    }
}

#[test]
fn test_runge_kutta_solver() {
    let solver = RungeKuttaSolver::new();
    let model = CompartmentModel::new(ModelType::OneCompartment).unwrap();
    let params = unit_decay_params();
    let y0 = vec![b(1.0)];
    let config = SolverConfig::default();

    let result = solver.solve(&model, &params, (b(0.0), b(1.0)), &y0, &config);
    assert!(result.is_ok());

    let (times, solutions) = result.unwrap();
    assert!(!times.is_empty());
    assert_eq!(times.len(), solutions.len());

    let final_solution = f(solutions.last().unwrap()[0]);
    assert!((final_solution - (-1.0_f64).exp()).abs() < 0.01);
}

#[test]
fn integrator_matches_exponential_decay() {
    let solver = RungeKuttaSolver::new();
    let model = CompartmentModel::new(ModelType::OneCompartment).unwrap();
    let params = unit_decay_params();
    let y0 = vec![b(2.5)];
    let mut config = SolverConfig::default();
    config.max_step_size = b(0.01);

    let final_state = solver
        .solve_to_time(&model, &params, b(0.0), b(2.0), &y0, &config)
        .unwrap();
    let expected = 2.5 * (-2.0_f64).exp();
    assert!((f(final_state[0]) - expected).abs() < 1e-6);
}

#[test]
fn integrator_is_deterministic() {
    let solver = RungeKuttaSolver::new();
    let model = CompartmentModel::new(ModelType::TwoCompartment).unwrap();
    let params = model.default_parameters();
    let y0 = vec![b(100.0), b(0.0)];
    let config = SolverConfig::default();

    let (t1, s1) = solver
        .solve(&model, &params, (b(0.0), b(7.5)), &y0, &config)
        .unwrap();
    let (t2, s2) = solver
        .solve(&model, &params, (b(0.0), b(7.5)), &y0, &config)
        .unwrap();
    assert_eq!(t1, t2);
    assert_eq!(s1, s2);
}

#[test]
fn integrator_rejects_empty_time_span() {
    let solver = RungeKuttaSolver::new();
    let model = CompartmentModel::new(ModelType::OneCompartment).unwrap();
    let params = unit_decay_params();
    let y0 = vec![b(1.0)];
    let config = SolverConfig::default();

    let same = solver.solve(&model, &params, (b(1.0), b(1.0)), &y0, &config);
    assert!(matches!(same, Err(SolverError::InvalidTimeStep(_))));
    let backward = solver.solve(&model, &params, (b(2.0), b(1.0)), &y0, &config);
    assert!(matches!(backward, Err(SolverError::InvalidTimeStep(_))));
}

#[test]
fn integrator_reports_numerical_instability() {
    let solver = RungeKuttaSolver::new();
    let model = CompartmentModel::new(ModelType::OneCompartment).unwrap();
    let mut params = unit_decay_params();
    // An enormous elimination rate makes the fixed-step update blow up.
    params.fixed_effects = vec![b(700.0), b(0.0)];
    let y0 = vec![b(1.0)];
    let config = SolverConfig::default();

    let result = solver.solve(&model, &params, (b(0.0), b(5.0)), &y0, &config);
    assert!(matches!(result, Err(SolverError::NumericalInstability)));
}

#[test]
fn parameter_lookup_by_name() {
    let model = OneCompartmentModel::new();
    let mut params = model.default_parameters();
    assert_eq!(params.get_parameter("CL"), Some(b(1.0_f64.ln())));
    assert_eq!(params.get_parameter("missing"), None);
    assert!(params.set_parameter("CL", b(0.5)).is_ok());
    assert_eq!(params.get_parameter("CL"), Some(b(0.5)));
    assert!(params.set_parameter("CL", b(-1.0)).is_err());
    assert!(params.set_parameter("missing", b(0.5)).is_err());
}

#[test]
fn validation_names_the_offending_parameter() {
    let model = OneCompartmentModel::new();
    let mut params = model.default_parameters();
    params.residual_variance = b(0.0);
    match model.validate_parameters(&params) {
        Err(ModelError::InvalidParameter { parameter, .. }) => {
            assert_eq!(parameter, "residual_variance");
        },
        other => panic!("unexpected validation outcome: {:?}", other),
    }

    let short = ModelParameters::new(1, vec!["CL".to_string()]);
    match model.validate_parameters(&short) {
        Err(ModelError::InvalidParameter { parameter, .. }) => {
            assert_eq!(parameter, "n_parameters");
        },
        other => panic!("unexpected validation outcome: {:?}", other),
    }
}
