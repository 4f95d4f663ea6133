// Data-model behaviour: observations, dosing records, individuals,
// configuration, and the bit-pattern constants.

use nmodes::data::{process_individual_records, DataError, Dataset, DosingRecord, DosingType,
    Individual, NonmemRecord, Observation, ObservationType};
use nmodes::config::{EstimationConfig, EstimationMethod};
use nmodes::validation::{validate_dataset, validate_model_fit};
use nmodes::fp;

fn b(x: f64) -> u64 {
    x.to_bits()
}

fn f(x: u64) -> f64 {
    f64::from_bits(x)
}

#[test]
fn test_dosing_record_creation() {
    let dose = DosingRecord::new(b(0.0), b(100.0), 1, DosingType::Bolus);
    assert_eq!(f(dose.time), 0.0);
    assert_eq!(f(dose.amount), 100.0);
    assert!(dose.is_valid());
}

#[test]
fn test_multiple_dose_expansion() {
    let mut dose = DosingRecord::new(b(0.0), b(100.0), 1, DosingType::Oral);
    dose.additional_doses = 2;
    dose.interdose_interval = Some(b(12.0));

    let expanded = dose.expand_multiple_doses();
    assert_eq!(expanded.len(), 3);
    assert_eq!(f(expanded[0].time), 0.0);
    assert_eq!(f(expanded[1].time), 12.0);
    assert_eq!(f(expanded[2].time), 24.0);
    for d in &expanded {
        assert_eq!(d.additional_doses, 0);
    }
}

#[test]
fn test_individual_creation() {
    let obs = vec![
        Observation::new(b(0.0), b(0.0), 1, ObservationType::Concentration),
        Observation::new(b(1.0), b(10.0), 1, ObservationType::Concentration),
    ];
    let doses = vec![DosingRecord::new(b(0.0), b(100.0), 1, DosingType::Bolus)];

    let individual = Individual::new(1, obs, doses, Vec::new());
    assert_eq!(individual.id, 1);
    assert_eq!(individual.n_observations(), 2);
    assert_eq!(f(individual.total_dose()), 100.0);
}

#[test]
fn test_observation_creation() {
    let obs = Observation::new(b(1.0), b(10.0), 1, ObservationType::Concentration);
    assert_eq!(f(obs.time), 1.0);
    assert_eq!(f(obs.value), 10.0);
    assert!(obs.is_valid());
}

#[test]
fn test_log_concentration() {
    let obs = Observation::new(b(1.0), b(10.0), 1, ObservationType::Concentration);
    assert_eq!(obs.log_concentration(), Some(b(10.0_f64.ln())));

    let zero_obs = Observation::new(b(1.0), b(0.0), 1, ObservationType::Concentration);
    assert_eq!(zero_obs.log_concentration(), None);
}

#[test]
fn test_default_config() {
    let config = EstimationConfig::default();
    assert!(config.validate().is_ok());
    assert_eq!(config.n_iterations, 1000);
    assert_eq!(config.n_burnin, 200);
}

#[test]
fn test_config_validation() {
    let mut config = EstimationConfig::default();
    config.n_iterations = 0;
    assert!(config.validate().is_err());

    config.n_iterations = 100;
    config.n_burnin = 150;
    assert!(config.validate().is_err());
}

#[test]
fn config_validation_names_each_fault() {
    let base = EstimationConfig::default();
    assert_eq!(
        base.clone().with_step_size(b(0.0)).validate(),
        Err("Step size must be positive".to_string())
    );
    assert_eq!(
        base.clone().with_foce_tolerance(b(-1.0)).validate(),
        Err("FOCE tolerance must be positive".to_string())
    );
    assert_eq!(
        base.clone().with_foce_iterations(0).validate(),
        Err("FOCE max iterations must be positive".to_string())
    );
    let mut odd = base.clone();
    odd.target_acceptance = b(1.5);
    assert_eq!(
        odd.validate(),
        Err("Target acceptance rate must be between 0 and 1".to_string())
    );
    assert_eq!(base.with_method(EstimationMethod::Foce).validate(), Ok(()));
}

#[test]
fn infusion_duration_reads_the_rate() {
    let mut dose = DosingRecord::new(b(0.0), b(100.0), 1, DosingType::Infusion);
    dose.rate = Some(b(50.0));
    assert_eq!(dose.infusion_duration(), Some(b(2.0)));

    let bolus = DosingRecord::new(b(0.0), b(100.0), 1, DosingType::Bolus);
    assert_eq!(bolus.infusion_duration(), None);
}

#[test]
fn dataset_validation_rejects_empty_and_unsorted() {
    let empty = Dataset::new(Vec::new(), Vec::new());
    assert!(matches!(
        validate_dataset(&empty),
        Err(DataError::InvalidFormat(_))
    ));

    let unsorted = Individual::new(
        7,
        vec![
            Observation::new(b(2.0), b(1.0), 1, ObservationType::Concentration),
            Observation::new(b(1.0), b(1.0), 1, ObservationType::Concentration),
        ],
        Vec::new(),
        Vec::new(),
    );
    let ds = Dataset::new(vec![unsorted], Vec::new());
    assert!(matches!(
        validate_dataset(&ds),
        Err(DataError::InvalidTimeSequence(7))
    ));

    let sorted = Individual::new(
        8,
        vec![
            Observation::new(b(1.0), b(1.0), 1, ObservationType::Concentration),
            Observation::new(b(2.0), b(1.0), 1, ObservationType::Concentration),
        ],
        Vec::new(),
        Vec::new(),
    );
    let ds2 = Dataset::new(vec![sorted], Vec::new());
    assert!(validate_dataset(&ds2).is_ok());
}

#[test]
fn model_fit_validation_checks_lengths_and_finiteness() {
    let preds = vec![b(1.0), b(2.0)];
    let obs = vec![b(1.0), b(2.0)];
    assert!(validate_model_fit(&preds, &obs).is_ok());
    assert!(validate_model_fit(&preds, &vec![b(1.0)]).is_err());
    assert!(validate_model_fit(&Vec::new(), &Vec::new()).is_err());
    assert_eq!(
        validate_model_fit(&vec![b(f64::NAN)], &vec![b(1.0)]),
        Err("Non-finite prediction".to_string())
    );
}

#[test]
fn record_processing_splits_observations_and_doses() {
    let records = vec![
        NonmemRecord {
            id: 1,
            time: b(0.0),
            dv: None,
            amt: Some(b(100.0)),
            evid: 1,
            cmt: Some(1),
            rate: None,
            ii: None,
            addl: None,
            ss: None,
        },
        NonmemRecord {
            id: 1,
            time: b(1.0),
            dv: Some(b(60.0)),
            amt: None,
            evid: 0,
            cmt: Some(1),
            rate: None,
            ii: None,
            addl: None,
            ss: None,
        },
    ];
    let individual = process_individual_records(1, records).unwrap();
    assert_eq!(individual.observations.len(), 1);
    assert_eq!(individual.dosing_records.len(), 1);
    assert_eq!(
        individual.observations[0].observation_type,
        ObservationType::Concentration
    );
    assert_eq!(individual.dosing_records[0].dosing_type, DosingType::Bolus);

    let none = process_individual_records(2, Vec::new());
    assert!(matches!(none, Err(DataError::NoObservations(2))));
}

#[test]
fn comparison_bits_agree_with_hardware_floats() {
    let samples = [
        0.0,
        -0.0,
        1.0,
        -1.0,
        f64::INFINITY,
        f64::NEG_INFINITY,
        f64::NAN,
        f64::MIN_POSITIVE,
        -f64::MIN_POSITIVE,
        5e-324,
        1.5e308,
    ];
    for &x in &samples {
        for &y in &samples {
            assert_eq!(fp::lt(b(x), b(y)), x < y, "lt {x} {y}");
            assert_eq!(fp::le(b(x), b(y)), x <= y, "le {x} {y}");
            assert_eq!(fp::eq(b(x), b(y)), x == y, "eq {x} {y}");
        }
        assert_eq!(fp::is_finite(b(x)), x.is_finite());
        assert_eq!(f(fp::abs(b(x))).to_bits(), x.abs().to_bits());
        assert_eq!(f(fp::neg(b(x))).to_bits(), (-x).to_bits());
    }
}

#[test]
fn constants_carry_the_advertised_values() {
    assert_eq!(fp::F_ZERO, b(0.0));
    assert_eq!(fp::F_ONE, b(1.0));
    assert_eq!(fp::F_TWO, b(2.0));
    assert_eq!(fp::F_THREE, b(3.0));
    assert_eq!(fp::F_FOUR, b(4.0));
    assert_eq!(fp::F_FIVE, b(5.0));
    assert_eq!(fp::F_SIX, b(6.0));
    assert_eq!(fp::F_HALF, b(0.5));
    assert_eq!(fp::F_TENTH, b(0.1));
    assert_eq!(fp::F_POINT_2, b(0.2));
    assert_eq!(fp::F_POINT_7, b(0.7));
    assert_eq!(fp::F_POINT_04, b(0.04));
    assert_eq!(fp::F_POINT_09, b(0.09));
    assert_eq!(fp::F_POINT_01, b(0.01));
    assert_eq!(fp::F_POINT_44, b(0.44));
    assert_eq!(fp::F_POINT_001, b(0.001));
    assert_eq!(fp::F_NEG_TEN, b(-10.0));
    assert_eq!(fp::F_NEG_FIVE, b(-5.0));
    assert_eq!(fp::F_PI, b(std::f64::consts::PI));
    assert_eq!(fp::F_1E_NEG_4, b(1e-4));
    assert_eq!(fp::F_1E_NEG_6, b(1e-6));
    assert_eq!(fp::F_1E_NEG_8, b(1e-8));
    assert_eq!(fp::F_1E_NEG_9, b(1e-9));
    assert_eq!(fp::F_1E_NEG_10, b(1e-10));
    assert_eq!(fp::F_1E_NEG_12, b(1e-12));
    assert_eq!(fp::F_INF, b(f64::INFINITY));
    assert_eq!(fp::F_NEG_INF, b(f64::NEG_INFINITY));
    assert_eq!(fp::F_HUNDRED, b(100.0));
    assert_eq!(nmodes::saem::F_NEG_TWO, b(-2.0));
}

#[test]
fn arithmetic_bits_agree_with_hardware_floats() {
    let xs = [0.5, -3.25, 100.0, 1e-8];
    let ys = [2.0, -0.125, 7.5, 3.0];
    for &x in &xs {
        for &y in &ys {
            assert_eq!(f(fp::add(b(x), b(y))), x + y);
            assert_eq!(f(fp::sub(b(x), b(y))), x - y);
            assert_eq!(f(fp::mul(b(x), b(y))), x * y);
            assert_eq!(f(fp::div(b(x), b(y))), x / y);
            assert_eq!(f(fp::max(b(x), b(y))), x.max(y));
            assert_eq!(f(fp::min(b(x), b(y))), x.min(y));
            assert_eq!(f(fp::powf(b(x.abs()), b(y))), x.abs().powf(y));
        }
        assert_eq!(f(fp::exp(b(x))), x.exp());
        assert_eq!(f(fp::sqrt(b(x.abs()))), x.abs().sqrt());
        assert_eq!(f(fp::ln(b(x.abs()))), x.abs().ln());
        assert_eq!(f(fp::ceil(b(x))), x.ceil());
    }
    assert_eq!(fp::to_u64(b(3.7)), 3);
    assert_eq!(f(fp::from_u64(12)), 12.0);
}

#[test]
fn time_grid_is_sorted_and_thinned() {
    let near = 2.0 + f64::EPSILON / 4.0;
    let ind1 = Individual::new(
        1,
        vec![
            Observation::new(b(2.0), b(1.0), 1, ObservationType::Concentration),
            Observation::new(b(4.0), b(1.0), 1, ObservationType::Concentration),
        ],
        Vec::new(),
        Vec::new(),
    );
    let ind2 = Individual::new(
        2,
        vec![
            Observation::new(b(1.0), b(1.0), 1, ObservationType::Concentration),
            Observation::new(b(near), b(1.0), 1, ObservationType::Concentration),
            Observation::new(b(4.0), b(1.0), 1, ObservationType::Concentration),
        ],
        Vec::new(),
        Vec::new(),
    );
    let ds = Dataset::new(vec![ind1, ind2], Vec::new());
    let grid = ds.get_all_times();
    let values: Vec<f64> = grid.iter().map(|&x| f(x)).collect();
    // 2.0 and its near-duplicate collapse; 4.0 appears once.
    assert_eq!(values, vec![1.0, 2.0, 4.0]);
}
