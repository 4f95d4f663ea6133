//! Compartment models: the closed set of model variants, their parameter
//! sets, linear ODE right-hand sides and observation (concentration)
//! functions, with exact contracts over binary64 bit patterns.

use vstd::prelude::*;

use crate::fp;
use crate::fp::{
    f_neg, fadd, fdiv, fexp, fle, fln, fmul, fsub, F_ONE, F_POINT_01, F_POINT_04, F_POINT_09, F_THREE,
    F_ZERO,
};

verus! {

/// The compartment structure a model is built over.
#[derive(Debug, Clone, Copy, PartialEq, Eq, Structural)]
pub enum ModelType {
    OneCompartment,
    TwoCompartment,
    ThreeCompartment,
}

/// A fault in a model's parameters or in a model-level computation.
#[derive(Debug, Clone, PartialEq)]
pub enum ModelError {
    InvalidParameter { parameter: String, value: u64 },
    IntegrationFailed(String),
    UnsupportedModel(String),
    BoundsViolation(String),
}

/// Number of compartments of a model variant.
pub open spec fn n_compartments_spec(mt: ModelType) -> usize {
    match mt {
        ModelType::OneCompartment => 1usize,
        ModelType::TwoCompartment => 2usize,
        ModelType::ThreeCompartment => 3usize,
    }
}

/// Number of parameters of a model variant.
pub open spec fn n_params_spec(mt: ModelType) -> usize {
    match mt {
        ModelType::OneCompartment => 2usize,
        ModelType::TwoCompartment => 4usize,
        ModelType::ThreeCompartment => 6usize,
    }
}

/// The ordered parameter names of a model variant.
pub open spec fn param_names_spec(mt: ModelType) -> Seq<Seq<char>> {
    match mt {
        ModelType::OneCompartment => seq!["CL"@, "V"@],
        ModelType::TwoCompartment => seq!["CL"@, "V1"@, "Q"@, "V2"@],
        ModelType::ThreeCompartment => seq!["CL"@, "V1"@, "Q2"@, "V2"@, "Q3"@, "V3"@],
    }
}

/// The default log-scale fixed effects of a model variant.
pub open spec fn default_fixed_spec(mt: ModelType) -> Seq<u64> {
    match mt {
        ModelType::OneCompartment => seq![fln(F_ONE), fln(F_THREE)],
        ModelType::TwoCompartment => seq![
            fln(F_ONE),
            fln(F_THREE),
            fln(fp::F_HALF),
            fln(fp::F_FOUR),
        ],
        ModelType::ThreeCompartment => seq![
            fln(F_ONE),
            fln(F_THREE),
            fln(fp::F_HALF),
            fln(fp::F_FOUR),
            fln(fp::F_POINT_2),
            fln(fp::F_FIVE),
        ],
    }
}

/// The default diagonal of the random-effects covariance of a variant.
pub open spec fn default_omega_diag_spec(mt: ModelType) -> Seq<u64> {
    match mt {
        ModelType::OneCompartment => seq![F_POINT_09, F_POINT_04],
        ModelType::TwoCompartment => Seq::new(4, |i: int| F_POINT_09),
        ModelType::ThreeCompartment => Seq::new(6, |i: int| F_POINT_09),
    }
}

/// The right-hand side `dA/dt` of a variant's linear ODE system, written as
/// the exact sequence of binary64 operations the executable code performs.
pub open spec fn deriv_spec(mt: ModelType, fe: Seq<u64>, y: Seq<u64>) -> Seq<u64> {
    match mt {
        ModelType::OneCompartment => {
            let cl = fexp(fe[0]);
            let v = fexp(fe[1]);
            let ke = fdiv(cl, v);
            seq![fmul(f_neg(ke), y[0])]
        },
        ModelType::TwoCompartment => {
            let cl = fexp(fe[0]);
            let v1 = fexp(fe[1]);
            let q = fexp(fe[2]);
            let v2 = fexp(fe[3]);
            seq![
                fadd(
                    fmul(f_neg(fadd(fdiv(cl, v1), fdiv(q, v1))), y[0]),
                    fmul(fdiv(q, v2), y[1]),
                ),
                fsub(fmul(fdiv(q, v1), y[0]), fmul(fdiv(q, v2), y[1])),
            ]
        },
        ModelType::ThreeCompartment => {
            let cl = fexp(fe[0]);
            let v1 = fexp(fe[1]);
            let q2 = fexp(fe[2]);
            let v2 = fexp(fe[3]);
            let q3 = fexp(fe[4]);
            let v3 = fexp(fe[5]);
            seq![
                fadd(
                    fadd(
                        fmul(
                            f_neg(fadd(fadd(fdiv(cl, v1), fdiv(q2, v1)), fdiv(q3, v1))),
                            y[0],
                        ),
                        fmul(fdiv(q2, v2), y[1]),
                    ),
                    fmul(fdiv(q3, v3), y[2]),
                ),
                fsub(fmul(fdiv(q2, v1), y[0]), fmul(fdiv(q2, v2), y[1])),
                fsub(fmul(fdiv(q3, v1), y[0]), fmul(fdiv(q3, v3), y[2])),
            ]
        },
    }
}

/// The predicted concentration a variant reports for a 1-based compartment
/// index: the compartment amount over that compartment's volume, zero for an
/// index the variant does not expose.
pub open spec fn observe_spec(mt: ModelType, fe: Seq<u64>, y: Seq<u64>, compartment: usize) -> u64 {
    match mt {
        ModelType::OneCompartment => {
            if compartment != 1 {
                F_ZERO
            } else {
                fdiv(y[0], fexp(fe[1]))
            }
        },
        ModelType::TwoCompartment => {
            if compartment == 1 {
                fdiv(y[0], fexp(fe[1]))
            } else if compartment == 2 {
                fdiv(y[1], fexp(fe[3]))
            } else {
                F_ZERO
            }
        },
        ModelType::ThreeCompartment => {
            if compartment == 1 {
                fdiv(y[0], fexp(fe[1]))
            } else if compartment == 2 {
                fdiv(y[1], fexp(fe[3]))
            } else if compartment == 3 {
                fdiv(y[2], fexp(fe[5]))
            } else {
                F_ZERO
            }
        },
    }
}

/// The parameter set of a population model: log-scale fixed effects, the
/// random-effects covariance matrix, the residual error variance and the
/// parameter names, all reals as binary64 bit patterns.
#[derive(Debug, Clone)]
pub struct ModelParameters {
    pub fixed_effects: Vec<u64>,
    pub random_effects_variance: Vec<Vec<u64>>,
    pub residual_variance: u64,
    pub parameter_names: Vec<String>,
}

/// A square matrix of this size whose rows all have the same length.
pub open spec fn square_spec(m: Seq<Vec<u64>>, n: int) -> bool {
    m.len() == n && forall|i: int| 0 <= i < n ==> (#[trigger] m[i])@.len() == n
}

impl ModelParameters {
    /// The structural invariant: names, fixed effects and covariance agree in
    /// dimension.
    pub open spec fn wf(&self) -> bool {
        &&& self.fixed_effects@.len() == self.parameter_names@.len()
        &&& square_spec(self.random_effects_variance@, self.fixed_effects@.len() as int)
    }

    /// Fresh parameters: zero fixed effects, identity covariance, unit
    /// residual variance.
    pub fn new(n_params: usize, param_names: Vec<String>) -> (r: Self)
        ensures
            r.fixed_effects@.len() == n_params,
            forall|i: int| 0 <= i < n_params ==> r.fixed_effects@[i] == F_ZERO,
            square_spec(r.random_effects_variance@, n_params as int),
            forall|i: int, j: int|
                0 <= i < n_params && 0 <= j < n_params ==> #[trigger] r.random_effects_variance@[i]@[j]
                    == (if i == j { F_ONE } else { F_ZERO }),
            r.residual_variance == F_ONE,
            r.parameter_names == param_names,
    {
        let mut fixed_effects: Vec<u64> = Vec::new();
        let mut matrix: Vec<Vec<u64>> = Vec::new();
        for i in 0..n_params
            invariant
                fixed_effects@.len() == i,
                forall|k: int| 0 <= k < i ==> fixed_effects@[k] == F_ZERO,
                matrix@.len() == i,
                forall|k: int| 0 <= k < i ==> (#[trigger] matrix@[k])@.len() == n_params,
                forall|k: int, j: int|
                    0 <= k < i && 0 <= j < n_params ==> #[trigger] matrix@[k]@[j]
                        == (if k == j { F_ONE } else { F_ZERO }),
        {
            fixed_effects.push(F_ZERO);
            let mut row: Vec<u64> = Vec::new();
            for j in 0..n_params
                invariant
                    row@.len() == j,
                    forall|k: int| 0 <= k < j ==> row@[k] == (if i == k { F_ONE } else { F_ZERO }),
            {
                if i == j {
                    row.push(F_ONE);
                } else {
                    row.push(F_ZERO);
                }
            }
            matrix.push(row);
        }
        ModelParameters {
            fixed_effects,
            random_effects_variance: matrix,
            residual_variance: F_ONE,
            parameter_names: param_names,
        }
    }

    /// How many parameters the set holds.
    pub fn n_parameters(&self) -> (n: usize)
        ensures
            n == self.fixed_effects@.len(),
    {
        self.fixed_effects.len()
    }
}

/// The state of a model: compartment amounts and the current time.
#[derive(Debug, Clone)]
pub struct ModelState {
    pub compartments: Vec<u64>,
    pub time: u64,
}

impl ModelState {
    /// A state of this many compartments, all empty, at time zero.
    pub fn new(n_compartments: usize) -> (r: Self)
        ensures
            r.compartments@ == Seq::new(n_compartments as nat, |i: int| F_ZERO),
            r.time == F_ZERO,
    {
        let mut compartments: Vec<u64> = Vec::new();
        for i in 0..n_compartments
            invariant
                compartments@ == Seq::new(i as nat, |k: int| F_ZERO),
        {
            compartments.push(F_ZERO);
        }
        proof {
            assert(compartments@ =~= Seq::new(n_compartments as nat, |i: int| F_ZERO));
        }
        ModelState { compartments, time: F_ZERO }
    }

    /// The same state stamped with the given time.
    pub fn with_time(self, time: u64) -> (r: Self)
        ensures
            r.compartments == self.compartments,
            r.time == time,
    {
        ModelState { compartments: self.compartments, time }
    }

    /// The amount in the 1-based compartment index, zero outside the range.
    pub fn get_concentration(&self, compartment: usize) -> (r: u64)
        ensures
            r == if 1 <= compartment <= self.compartments@.len() {
                self.compartments@[compartment - 1]
            } else {
                F_ZERO
            },
    {
        if compartment > 0 && compartment <= self.compartments.len() {
            self.compartments[compartment - 1]
        } else {
            F_ZERO
        }
    }

    /// Deposits a dose into the 1-based compartment index; indices outside
    /// the range leave the state unchanged.
    pub fn add_dose(&mut self, compartment: usize, amount: u64)
        ensures
            final(self).time == old(self).time,
            final(self).compartments@ == apply_dose_spec(
                old(self).compartments@,
                compartment,
                amount,
            ),
    {
        if compartment > 0 && compartment <= self.compartments.len() {
            let updated = fp::add(self.compartments[compartment - 1], amount);
            self.compartments.set(compartment - 1, updated);
        }
        proof {
            assert(self.compartments@ =~= apply_dose_spec(
                old(self).compartments@,
                compartment,
                amount,
            ));
        }
    }
}

/// The compartment vector after a dose lands in the 1-based index, unchanged
/// when the index is out of range.
pub open spec fn apply_dose_spec(y: Seq<u64>, compartment: usize, amount: u64) -> Seq<u64> {
    if 1 <= compartment <= y.len() {
        y.update(compartment - 1, fadd(y[compartment - 1], amount))
    } else {
        y
    }
}

/// Relies on `PartialEq::eq` for `str`: equality of the character sequences.
pub assume_specification[ <str as PartialEq<str>>::eq ](a: &str, b: &str) -> (r: bool)
    ensures
        r == (a@ == b@),
;

/// The index of the first of the names that reads as `name`, or the length.
pub open spec fn find_name_from(names: Seq<String>, name: Seq<char>, i: int) -> int
    decreases names.len() - i,
{
    if i < 0 || i >= names.len() {
        names.len() as int
    } else if names[i]@ == name {
        i
    } else {
        find_name_from(names, name, i + 1)
    }
}

/// What a variant's parameter validation must return: `Ok` exactly when the
/// parameter count matches, every transformed parameter is positive and the
/// residual variance is positive; otherwise the error that names the first
/// offending quantity and its value.
pub open spec fn validate_post(mt: ModelType, params: ModelParameters, r: Result<
    (),
    ModelError,
>) -> bool {
    let fe = params.fixed_effects@;
    let n = n_params_spec(mt) as int;
    match r {
        Ok(()) => {
            &&& fe.len() == n
            &&& forall|i: int| 0 <= i < n ==> !fle(fexp(fe[i]), F_ZERO)
            &&& !fle(params.residual_variance, F_ZERO)
        },
        Err(e) => match e {
            ModelError::InvalidParameter { parameter, value } => {
                if fe.len() != n {
                    parameter@ == "n_parameters"@ && value == fp::f_from_u64(fe.len() as u64)
                } else {
                    ||| (exists|i: int|
                        0 <= i < n && (forall|k: int| 0 <= k < i ==> !fle(fexp(fe[k]), F_ZERO))
                            && #[trigger] fle(fexp(fe[i]), F_ZERO)
                            && parameter@ == param_names_spec(mt)[i] && value == fexp(fe[i]))
                    ||| ((forall|i: int| 0 <= i < n ==> !fle(fexp(fe[i]), F_ZERO)) && fle(
                        params.residual_variance,
                        F_ZERO,
                    ) && parameter@ == "residual_variance"@ && value == params.residual_variance)
                }
            },
            _ => false,
        },
    }
}

/// The shape of a variant's default parameter set.
pub open spec fn is_default_params(mt: ModelType, r: ModelParameters) -> bool {
    let n = n_params_spec(mt) as int;
    &&& r.fixed_effects@.len() == n
    &&& forall|i: int| 0 <= i < n ==> r.fixed_effects@[i] == default_fixed_spec(mt)[i]
    &&& r.parameter_names@.len() == n
    &&& forall|i: int| 0 <= i < n ==> (#[trigger] r.parameter_names@[i])@ == param_names_spec(mt)[i]
    &&& square_spec(r.random_effects_variance@, n)
    &&& forall|i: int, j: int|
        0 <= i < n && 0 <= j < n ==> #[trigger] r.random_effects_variance@[i]@[j] == (if i == j {
            default_omega_diag_spec(mt)[i]
        } else {
            F_ZERO
        })
    &&& r.residual_variance == F_POINT_01
}

/// The ordered parameter names of a variant, as owned strings.
pub fn model_parameter_names(mt: ModelType) -> (r: Vec<String>)
    ensures
        r@.len() == n_params_spec(mt),
        forall|i: int| 0 <= i < r@.len() ==> (#[trigger] r@[i])@ == param_names_spec(mt)[i],
{
    let r = match mt {
        ModelType::OneCompartment => vec!["CL".to_owned(), "V".to_owned()],
        ModelType::TwoCompartment => vec![
            "CL".to_owned(),
            "V1".to_owned(),
            "Q".to_owned(),
            "V2".to_owned(),
        ],
        ModelType::ThreeCompartment => vec![
            "CL".to_owned(),
            "V1".to_owned(),
            "Q2".to_owned(),
            "V2".to_owned(),
            "Q3".to_owned(),
            "V3".to_owned(),
        ],
    };
    proof {
        assert forall|i: int| 0 <= i < r@.len() implies (#[trigger] r@[i])@ == param_names_spec(
            mt,
        )[i] by {}
    }
    r
}

/// A variant's default parameters: typical log-scale values, a diagonal
/// covariance, and a proportional residual error variance.
pub fn model_default_parameters(mt: ModelType) -> (r: ModelParameters)
    ensures
        is_default_params(mt, r),
{
    let names = model_parameter_names(mt);
    let fixed: Vec<u64> = match mt {
        ModelType::OneCompartment => vec![fp::ln(F_ONE), fp::ln(F_THREE)],
        ModelType::TwoCompartment => vec![
            fp::ln(F_ONE),
            fp::ln(F_THREE),
            fp::ln(fp::F_HALF),
            fp::ln(fp::F_FOUR),
        ],
        ModelType::ThreeCompartment => vec![
            fp::ln(F_ONE),
            fp::ln(F_THREE),
            fp::ln(fp::F_HALF),
            fp::ln(fp::F_FOUR),
            fp::ln(fp::F_POINT_2),
            fp::ln(fp::F_FIVE),
        ],
    };
    let diag: Vec<u64> = match mt {
        ModelType::OneCompartment => vec![F_POINT_09, F_POINT_04],
        ModelType::TwoCompartment => vec![F_POINT_09, F_POINT_09, F_POINT_09, F_POINT_09],
        ModelType::ThreeCompartment => vec![
            F_POINT_09,
            F_POINT_09,
            F_POINT_09,
            F_POINT_09,
            F_POINT_09,
            F_POINT_09,
        ],
    };
    let omega = crate::linalg::diag_matrix(&diag);
    proof {
        assert forall|i: int| 0 <= i < fixed@.len() implies fixed@[i] == default_fixed_spec(mt)[i]
        by {}
        assert forall|i: int| 0 <= i < diag@.len() implies diag@[i] == default_omega_diag_spec(
            mt,
        )[i] by {}
    }
    ModelParameters {
        fixed_effects: fixed,
        random_effects_variance: omega,
        residual_variance: F_POINT_01,
        parameter_names: names,
    }
}

/// A variant's ODE right-hand side at this state.
pub fn model_derivatives(mt: ModelType, state: &ModelState, params: &ModelParameters) -> (r: Vec<
    u64,
>)
    requires
        state.compartments@.len() == n_compartments_spec(mt),
        params.fixed_effects@.len() >= n_params_spec(mt),
    ensures
        r@.len() == n_compartments_spec(mt),
        r@ == deriv_spec(mt, params.fixed_effects@, state.compartments@),
{
    let fe = &params.fixed_effects;
    let y = &state.compartments;
    let r: Vec<u64> = match mt {
        ModelType::OneCompartment => {
            let cl = fp::exp(fe[0]);
            let v = fp::exp(fe[1]);
            let ke = fp::div(cl, v);
            vec![fp::mul(fp::neg(ke), y[0])]
        },
        ModelType::TwoCompartment => {
            let cl = fp::exp(fe[0]);
            let v1 = fp::exp(fe[1]);
            let q = fp::exp(fe[2]);
            let v2 = fp::exp(fe[3]);
            let d0 = fp::add(
                fp::mul(fp::neg(fp::add(fp::div(cl, v1), fp::div(q, v1))), y[0]),
                fp::mul(fp::div(q, v2), y[1]),
            );
            let d1 = fp::sub(fp::mul(fp::div(q, v1), y[0]), fp::mul(fp::div(q, v2), y[1]));
            vec![d0, d1]
        },
        ModelType::ThreeCompartment => {
            let cl = fp::exp(fe[0]);
            let v1 = fp::exp(fe[1]);
            let q2 = fp::exp(fe[2]);
            let v2 = fp::exp(fe[3]);
            let q3 = fp::exp(fe[4]);
            let v3 = fp::exp(fe[5]);
            let d0 = fp::add(
                fp::add(
                    fp::mul(
                        fp::neg(fp::add(fp::add(fp::div(cl, v1), fp::div(q2, v1)), fp::div(q3, v1))),
                        y[0],
                    ),
                    fp::mul(fp::div(q2, v2), y[1]),
                ),
                fp::mul(fp::div(q3, v3), y[2]),
            );
            let d1 = fp::sub(fp::mul(fp::div(q2, v1), y[0]), fp::mul(fp::div(q2, v2), y[1]));
            let d2 = fp::sub(fp::mul(fp::div(q3, v1), y[0]), fp::mul(fp::div(q3, v3), y[2]));
            vec![d0, d1, d2]
        },
    };
    proof {
        assert(r@ =~= deriv_spec(mt, params.fixed_effects@, state.compartments@));
    }
    r
}

/// A variant's predicted concentration for a 1-based compartment index.
pub fn model_observation(
    mt: ModelType,
    state: &ModelState,
    params: &ModelParameters,
    compartment: usize,
) -> (r: u64)
    requires
        state.compartments@.len() == n_compartments_spec(mt),
        params.fixed_effects@.len() >= n_params_spec(mt),
    ensures
        r == observe_spec(mt, params.fixed_effects@, state.compartments@, compartment),
{
    let fe = &params.fixed_effects;
    let y = &state.compartments;
    match mt {
        ModelType::OneCompartment => {
            if compartment != 1 {
                F_ZERO
            } else {
                fp::div(y[0], fp::exp(fe[1]))
            }
        },
        ModelType::TwoCompartment => {
            if compartment == 1 {
                fp::div(y[0], fp::exp(fe[1]))
            } else if compartment == 2 {
                fp::div(y[1], fp::exp(fe[3]))
            } else {
                F_ZERO
            }
        },
        ModelType::ThreeCompartment => {
            if compartment == 1 {
                fp::div(y[0], fp::exp(fe[1]))
            } else if compartment == 2 {
                fp::div(y[1], fp::exp(fe[3]))
            } else if compartment == 3 {
                fp::div(y[2], fp::exp(fe[5]))
            } else {
                F_ZERO
            }
        },
    }
}

/// A variant's parameter validation: every transformed parameter and the
/// residual variance must be positive, and the count must match.
pub fn model_validate_parameters(mt: ModelType, params: &ModelParameters) -> (r: Result<
    (),
    ModelError,
>)
    ensures
        validate_post(mt, *params, r),
{
    let n = match mt {
        ModelType::OneCompartment => 1usize,
        ModelType::TwoCompartment => 2usize,
        ModelType::ThreeCompartment => 3usize,
    };
    let n_params: usize = 2 * n;
    if params.fixed_effects.len() != n_params {
        let len = params.fixed_effects.len();
        return Err(ModelError::InvalidParameter {
            parameter: "n_parameters".to_owned(),
            value: fp::from_u64(len as u64),
        });
    }
    let names = model_parameter_names(mt);
    for i in 0..n_params
        invariant
            n_params == n_params_spec(mt),
            params.fixed_effects@.len() == n_params,
            names@.len() == n_params,
            forall|k: int| 0 <= k < names@.len() ==> (#[trigger] names@[k])@ == param_names_spec(
                mt,
            )[k],
            forall|k: int| 0 <= k < i ==> !fle(fexp(params.fixed_effects@[k]), F_ZERO),
    {
        let value = fp::exp(params.fixed_effects[i]);
        if fp::le(value, F_ZERO) {
            return Err(ModelError::InvalidParameter { parameter: names[i].clone(), value });
        }
    }
    if fp::le(params.residual_variance, F_ZERO) {
        return Err(ModelError::InvalidParameter {
            parameter: "residual_variance".to_owned(),
            value: params.residual_variance,
        });
    }
    Ok(())
}


impl ModelParameters {
    /// The value of the named parameter, when the name is known.
    pub fn get_parameter(&self, name: &str) -> (r: Option<u64>)
        requires
            self.wf(),
        ensures
            ({
                let idx = find_name_from(self.parameter_names@, name@, 0);
                if idx < self.parameter_names@.len() {
                    r == Some(self.fixed_effects@[idx])
                } else {
                    r == Option::<u64>::None
                }
            }),
    {
        let n = self.parameter_names.len();
        for i in 0..n
            invariant
                n == self.parameter_names@.len(),
                self.wf(),
                find_name_from(self.parameter_names@, name@, 0) == find_name_from(
                    self.parameter_names@,
                    name@,
                    i as int,
                ),
        {
            if self.parameter_names[i].as_str().eq(name) {
                return Some(self.fixed_effects[i]);
            }
        }
        None
    }

    /// Sets the named parameter; the value must be positive and the name
    /// known, and the error says which failed.
    pub fn set_parameter(&mut self, name: &str, value: u64) -> (r: Result<(), ModelError>)
        requires
            old(self).wf(),
        ensures
            final(self).parameter_names == old(self).parameter_names,
            final(self).random_effects_variance == old(self).random_effects_variance,
            final(self).residual_variance == old(self).residual_variance,
            ({
                let idx = find_name_from(old(self).parameter_names@, name@, 0);
                if idx < old(self).parameter_names@.len() {
                    if fle(value, F_ZERO) {
                        r matches Err(ModelError::BoundsViolation(_)) && final(self).fixed_effects
                            == old(self).fixed_effects
                    } else {
                        r matches Ok(()) && final(self).fixed_effects@ == old(
                            self,
                        ).fixed_effects@.update(idx, value)
                    }
                } else {
                    (r matches Err(ModelError::InvalidParameter { parameter, value: v })
                        && parameter@ == name@ && v == value) && final(self).fixed_effects == old(
                        self,
                    ).fixed_effects
                }
            }),
    {
        let n = self.parameter_names.len();
        for i in 0..n
            invariant
                n == self.parameter_names@.len(),
                self.wf(),
                self == old(self),
                find_name_from(self.parameter_names@, name@, 0) == find_name_from(
                    self.parameter_names@,
                    name@,
                    i as int,
                ),
        {
            if self.parameter_names[i].as_str().eq(name) {
                if fp::le(value, F_ZERO) {
                    return Err(ModelError::BoundsViolation(
                        "the parameter value must be positive".to_owned(),
                    ));
                }
                self.fixed_effects.set(i, value);
                return Ok(());
            }
        }
        Err(ModelError::InvalidParameter { parameter: name.to_owned(), value })
    }

    /// A copy of the fixed-effects vector.
    pub fn get_fixed_effects_vector(&self) -> (r: Vec<u64>)
        ensures
            r@ == self.fixed_effects@,
    {
        crate::linalg::copy_vec(&self.fixed_effects)
    }

    /// A copy of the random-effects covariance matrix.
    pub fn get_random_effects_matrix(&self) -> (r: Vec<Vec<u64>>)
        ensures
            r@.len() == self.random_effects_variance@.len(),
            forall|i: int|
                0 <= i < r@.len() ==> #[trigger] r@[i]@ == self.random_effects_variance@[i]@,
    {
        crate::linalg::copy_mat(&self.random_effects_variance)
    }

    /// Replaces the fixed effects, clamping each component to at least -10 so
    /// that its exponential stays away from zero.
    pub fn set_fixed_effects(&mut self, effects: &Vec<u64>)
        ensures
            final(self).parameter_names == old(self).parameter_names,
            final(self).random_effects_variance == old(self).random_effects_variance,
            final(self).residual_variance == old(self).residual_variance,
            final(self).fixed_effects@.len() == effects@.len(),
            forall|i: int|
                0 <= i < effects@.len() ==> final(self).fixed_effects@[i] == fp::fmax(
                    effects@[i],
                    fp::F_NEG_TEN,
                ),
    {
        let mut clamped: Vec<u64> = Vec::new();
        let n = effects.len();
        for i in 0..n
            invariant
                n == effects@.len(),
                clamped@.len() == i,
                forall|k: int| 0 <= k < i ==> clamped@[k] == fp::fmax(effects@[k], fp::F_NEG_TEN),
        {
            clamped.push(fp::max(effects[i], fp::F_NEG_TEN));
        }
        self.fixed_effects = clamped;
    }

    /// Replaces the random-effects covariance with a copy of the given
    /// square matrix.
    pub fn set_random_effects_variance(&mut self, variance: &Vec<Vec<u64>>)
        requires
            square_spec(variance@, variance@.len() as int),
        ensures
            final(self).parameter_names == old(self).parameter_names,
            final(self).fixed_effects == old(self).fixed_effects,
            final(self).residual_variance == old(self).residual_variance,
            final(self).random_effects_variance@.len() == variance@.len(),
            forall|i: int|
                0 <= i < variance@.len() ==> #[trigger] final(self).random_effects_variance@[i]@
                    == variance@[i]@,
    {
        self.random_effects_variance = crate::linalg::copy_mat(variance);
    }
}

/// The one-compartment model: `dA/dt = -(CL/V) A`.
pub struct OneCompartmentModel {}

/// The two-compartment model: a central compartment exchanging with one
/// peripheral compartment.
pub struct TwoCompartmentModel {}

/// The three-compartment model: a central compartment exchanging with two
/// peripheral compartments.
pub struct ThreeCompartmentModel {}

impl OneCompartmentModel {
    pub fn new() -> (r: Self) {
        OneCompartmentModel {  }
    }

    pub fn n_compartments(&self) -> (n: usize)
        ensures
            n == n_compartments_spec(ModelType::OneCompartment),
    {
        1
    }

    pub fn parameter_names(&self) -> (r: Vec<String>)
        ensures
            r@.len() == n_params_spec(ModelType::OneCompartment),
            forall|i: int|
                0 <= i < r@.len() ==> (#[trigger] r@[i])@ == param_names_spec(
                    ModelType::OneCompartment,
                )[i],
    {
        model_parameter_names(ModelType::OneCompartment)
    }

    pub fn default_parameters(&self) -> (r: ModelParameters)
        ensures
            is_default_params(ModelType::OneCompartment, r),
    {
        model_default_parameters(ModelType::OneCompartment)
    }

    pub fn derivatives(&self, state: &ModelState, params: &ModelParameters) -> (r: Vec<u64>)
        requires
            state.compartments@.len() == n_compartments_spec(ModelType::OneCompartment),
            params.fixed_effects@.len() >= n_params_spec(ModelType::OneCompartment),
        ensures
            r@ == deriv_spec(ModelType::OneCompartment, params.fixed_effects@, state.compartments@),
    {
        model_derivatives(ModelType::OneCompartment, state, params)
    }

    pub fn observation_function(
        &self,
        state: &ModelState,
        params: &ModelParameters,
        compartment: usize,
    ) -> (r: u64)
        requires
            state.compartments@.len() == n_compartments_spec(ModelType::OneCompartment),
            params.fixed_effects@.len() >= n_params_spec(ModelType::OneCompartment),
        ensures
            r == observe_spec(
                ModelType::OneCompartment,
                params.fixed_effects@,
                state.compartments@,
                compartment,
            ),
    {
        model_observation(ModelType::OneCompartment, state, params, compartment)
    }

    pub fn validate_parameters(&self, params: &ModelParameters) -> (r: Result<(), ModelError>)
        ensures
            validate_post(ModelType::OneCompartment, *params, r),
    {
        model_validate_parameters(ModelType::OneCompartment, params)
    }
}

impl TwoCompartmentModel {
    pub fn new() -> (r: Self) {
        TwoCompartmentModel {  }
    }

    pub fn n_compartments(&self) -> (n: usize)
        ensures
            n == n_compartments_spec(ModelType::TwoCompartment),
    {
        2
    }

    pub fn parameter_names(&self) -> (r: Vec<String>)
        ensures
            r@.len() == n_params_spec(ModelType::TwoCompartment),
            forall|i: int|
                0 <= i < r@.len() ==> (#[trigger] r@[i])@ == param_names_spec(
                    ModelType::TwoCompartment,
                )[i],
    {
        model_parameter_names(ModelType::TwoCompartment)
    }

    pub fn default_parameters(&self) -> (r: ModelParameters)
        ensures
            is_default_params(ModelType::TwoCompartment, r),
    {
        model_default_parameters(ModelType::TwoCompartment)
    }

    pub fn derivatives(&self, state: &ModelState, params: &ModelParameters) -> (r: Vec<u64>)
        requires
            state.compartments@.len() == n_compartments_spec(ModelType::TwoCompartment),
            params.fixed_effects@.len() >= n_params_spec(ModelType::TwoCompartment),
        ensures
            r@ == deriv_spec(ModelType::TwoCompartment, params.fixed_effects@, state.compartments@),
    {
        model_derivatives(ModelType::TwoCompartment, state, params)
    }

    pub fn observation_function(
        &self,
        state: &ModelState,
        params: &ModelParameters,
        compartment: usize,
    ) -> (r: u64)
        requires
            state.compartments@.len() == n_compartments_spec(ModelType::TwoCompartment),
            params.fixed_effects@.len() >= n_params_spec(ModelType::TwoCompartment),
        ensures
            r == observe_spec(
                ModelType::TwoCompartment,
                params.fixed_effects@,
                state.compartments@,
                compartment,
            ),
    {
        model_observation(ModelType::TwoCompartment, state, params, compartment)
    }

    pub fn validate_parameters(&self, params: &ModelParameters) -> (r: Result<(), ModelError>)
        ensures
            validate_post(ModelType::TwoCompartment, *params, r),
    {
        model_validate_parameters(ModelType::TwoCompartment, params)
    }
}

impl ThreeCompartmentModel {
    pub fn new() -> (r: Self) {
        ThreeCompartmentModel {  }
    }

    pub fn n_compartments(&self) -> (n: usize)
        ensures
            n == n_compartments_spec(ModelType::ThreeCompartment),
    {
        3
    }

    pub fn parameter_names(&self) -> (r: Vec<String>)
        ensures
            r@.len() == n_params_spec(ModelType::ThreeCompartment),
            forall|i: int|
                0 <= i < r@.len() ==> (#[trigger] r@[i])@ == param_names_spec(
                    ModelType::ThreeCompartment,
                )[i],
    {
        model_parameter_names(ModelType::ThreeCompartment)
    }

    pub fn default_parameters(&self) -> (r: ModelParameters)
        ensures
            is_default_params(ModelType::ThreeCompartment, r),
    {
        model_default_parameters(ModelType::ThreeCompartment)
    }

    pub fn derivatives(&self, state: &ModelState, params: &ModelParameters) -> (r: Vec<u64>)
        requires
            state.compartments@.len() == n_compartments_spec(ModelType::ThreeCompartment),
            params.fixed_effects@.len() >= n_params_spec(ModelType::ThreeCompartment),
        ensures
            r@ == deriv_spec(
                ModelType::ThreeCompartment,
                params.fixed_effects@,
                state.compartments@,
            ),
    {
        model_derivatives(ModelType::ThreeCompartment, state, params)
    }

    pub fn observation_function(
        &self,
        state: &ModelState,
        params: &ModelParameters,
        compartment: usize,
    ) -> (r: u64)
        requires
            state.compartments@.len() == n_compartments_spec(ModelType::ThreeCompartment),
            params.fixed_effects@.len() >= n_params_spec(ModelType::ThreeCompartment),
        ensures
            r == observe_spec(
                ModelType::ThreeCompartment,
                params.fixed_effects@,
                state.compartments@,
                compartment,
            ),
    {
        model_observation(ModelType::ThreeCompartment, state, params, compartment)
    }

    pub fn validate_parameters(&self, params: &ModelParameters) -> (r: Result<(), ModelError>)
        ensures
            validate_post(ModelType::ThreeCompartment, *params, r),
    {
        model_validate_parameters(ModelType::ThreeCompartment, params)
    }
}

/// A model over the closed set of compartment variants; every method
/// dispatches on the variant tag.
#[derive(Debug, Clone)]
pub struct CompartmentModel {
    pub model_type: ModelType,
}

impl CompartmentModel {
    /// A model of the given variant; every variant is supported.
    pub fn new(model_type: ModelType) -> (r: Result<Self, ModelError>)
        ensures
            r matches Ok(m) && m.model_type == model_type,
    {
        Ok(CompartmentModel { model_type })
    }

    pub fn model_type(&self) -> (r: &ModelType)
        ensures
            *r == self.model_type,
    {
        &self.model_type
    }

    pub fn n_compartments(&self) -> (n: usize)
        ensures
            n == n_compartments_spec(self.model_type),
    {
        match self.model_type {
            ModelType::OneCompartment => 1,
            ModelType::TwoCompartment => 2,
            ModelType::ThreeCompartment => 3,
        }
    }

    pub fn parameter_names(&self) -> (r: Vec<String>)
        ensures
            r@.len() == n_params_spec(self.model_type),
            forall|i: int|
                0 <= i < r@.len() ==> (#[trigger] r@[i])@ == param_names_spec(
                    self.model_type,
                )[i],
    {
        model_parameter_names(self.model_type)
    }

    pub fn default_parameters(&self) -> (r: ModelParameters)
        ensures
            is_default_params(self.model_type, r),
    {
        model_default_parameters(self.model_type)
    }

    pub fn derivatives(&self, state: &ModelState, params: &ModelParameters) -> (r: Vec<u64>)
        requires
            state.compartments@.len() == n_compartments_spec(self.model_type),
            params.fixed_effects@.len() >= n_params_spec(self.model_type),
        ensures
            r@ == deriv_spec(self.model_type, params.fixed_effects@, state.compartments@),
    {
        model_derivatives(self.model_type, state, params)
    }

    pub fn observation_function(
        &self,
        state: &ModelState,
        params: &ModelParameters,
        compartment: usize,
    ) -> (r: u64)
        requires
            state.compartments@.len() == n_compartments_spec(self.model_type),
            params.fixed_effects@.len() >= n_params_spec(self.model_type),
        ensures
            r == observe_spec(
                self.model_type,
                params.fixed_effects@,
                state.compartments@,
                compartment,
            ),
    {
        model_observation(self.model_type, state, params, compartment)
    }

    pub fn validate_parameters(&self, params: &ModelParameters) -> (r: Result<(), ModelError>)
        ensures
            validate_post(self.model_type, *params, r),
    {
        model_validate_parameters(self.model_type, params)
    }
}

} // verus!
