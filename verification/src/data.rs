//! Study data: observations, dosing records, individuals and datasets, plus
//! the translation of tabular NONMEM-style records into individuals.  Times,
//! amounts and measured values are binary64 bit patterns.

use vstd::prelude::*;

use crate::fp;
use crate::fp::{f_from_u64, f_is_finite, fadd, fdiv, feq, fle, fln, flt, fmul, fsub, F_ZERO};

verus! {

/// The kind of a measurement.
#[derive(Debug, Clone, Copy, PartialEq, Eq, Structural)]
pub enum ObservationType {
    Concentration,
    Effect,
    Missing,
}

/// How a dose enters the system.
#[derive(Debug, Clone, Copy, PartialEq, Eq, Structural)]
pub enum DosingType {
    Bolus,
    Infusion,
    Oral,
}

/// A fault in the study data.
#[derive(Debug, Clone, PartialEq)]
pub enum DataError {
    InvalidFormat(String),
    MissingColumn(String),
    InvalidTimeSequence(i32),
    NoObservations(i32),
    InvalidDose(u64),
    NegativeTime(u64),
}

/// One measured value at a time point.
#[derive(Debug, Clone, Copy, PartialEq, Eq, Structural)]
pub struct Observation {
    pub time: u64,
    pub value: u64,
    pub compartment: i32,
    pub observation_type: ObservationType,
}

impl Observation {
    pub fn new(time: u64, value: u64, compartment: i32, observation_type: ObservationType) -> (r:
        Self)
        ensures
            r == (Observation { time, value, compartment, observation_type }),
    {
        Observation { time, value, compartment, observation_type }
    }

    /// A usable measurement: non-negative time, finite value, a real
    /// compartment, and not marked missing.
    pub fn is_valid(&self) -> (r: bool)
        ensures
            r == (fle(F_ZERO, self.time) && f_is_finite(self.value) && self.compartment > 0
                && self.observation_type != ObservationType::Missing),
    {
        fp::le(F_ZERO, self.time) && fp::is_finite(self.value) && self.compartment > 0
            && !matches!(self.observation_type, ObservationType::Missing)
    }

    /// The natural log of a positive concentration measurement.
    pub fn log_concentration(&self) -> (r: Option<u64>)
        ensures
            r == if flt(F_ZERO, self.value) && self.observation_type
                == ObservationType::Concentration {
                Some(fln(self.value))
            } else {
                Option::<u64>::None
            },
    {
        if fp::lt(F_ZERO, self.value) && matches!(
            self.observation_type,
            ObservationType::Concentration,
        ) {
            Some(fp::ln(self.value))
        } else {
            None
        }
    }
}

/// One dosing event, possibly standing for a series of repeated doses.
#[derive(Debug, Clone, Copy, PartialEq, Eq, Structural)]
pub struct DosingRecord {
    pub time: u64,
    pub amount: u64,
    pub compartment: i32,
    pub rate: Option<u64>,
    pub dosing_type: DosingType,
    pub additional_doses: i32,
    pub interdose_interval: Option<u64>,
    pub steady_state: bool,
}

/// The `i`-th dose of an expanded series: the base record moved to
/// `time + i * interval` and stripped of its repetition fields.
pub open spec fn expanded_dose_spec(d: DosingRecord, interval: u64, i: int) -> DosingRecord {
    if i == 0 {
        DosingRecord { additional_doses: 0, ..d }
    } else {
        DosingRecord {
            time: fadd(d.time, fmul(f_from_u64(i as u64), interval)),
            additional_doses: 0,
            ..d
        }
    }
}

impl DosingRecord {
    pub fn new(time: u64, amount: u64, compartment: i32, dosing_type: DosingType) -> (r: Self)
        ensures
            r == (DosingRecord {
                time,
                amount,
                compartment,
                rate: None,
                dosing_type,
                additional_doses: 0,
                interdose_interval: None,
                steady_state: false,
            }),
    {
        DosingRecord {
            time,
            amount,
            compartment,
            rate: None,
            dosing_type,
            additional_doses: 0,
            interdose_interval: None,
            steady_state: false,
        }
    }

    /// A usable dosing event: non-negative time, positive amount, a real
    /// compartment, and a non-negative repeat count.
    pub fn is_valid(&self) -> (r: bool)
        ensures
            r == (fle(F_ZERO, self.time) && flt(F_ZERO, self.amount) && self.compartment > 0
                && self.additional_doses >= 0),
    {
        fp::le(F_ZERO, self.time) && fp::lt(F_ZERO, self.amount) && self.compartment > 0
            && self.additional_doses >= 0
    }

    /// For an infusion with a rate, how long the infusion runs.
    pub fn infusion_duration(&self) -> (r: Option<u64>)
        ensures
            r == match (self.dosing_type, self.rate) {
                (DosingType::Infusion, Some(rate)) => Some(fdiv(self.amount, rate)),
                _ => Option::<u64>::None,
            },
    {
        if matches!(self.dosing_type, DosingType::Infusion) {
            match self.rate {
                Some(rate) => Some(fp::div(self.amount, rate)),
                None => None,
            }
        } else {
            None
        }
    }

    /// Expands a record with `additional_doses` repeats at the interdose
    /// interval into single doses at `time`, `time + interval`, ..., each
    /// with `additional_doses` zero.  A record with no repeats, or with no
    /// interval to place them at, stays as the one dose it is.
    pub fn expand_multiple_doses(&self) -> (r: Vec<DosingRecord>)
        ensures
            match self.interdose_interval {
                Some(interval) => {
                    if self.additional_doses > 0 {
                        &&& r@.len() == self.additional_doses + 1
                        &&& forall|i: int|
                            0 <= i <= self.additional_doses ==> r@[i] == expanded_dose_spec(
                                *self,
                                interval,
                                i,
                            )
                    } else {
                        r@ =~= seq![*self]
                    }
                },
                None => r@ =~= seq![*self],
            },
    {
        if self.additional_doses > 0 {
            match self.interdose_interval {
                Some(interval) => {
                    let mut doses: Vec<DosingRecord> = Vec::new();
                    let n = self.additional_doses;
                    let total: usize = (n as usize) + 1;
                    let mut i: usize = 0;
                    while i < total
                        invariant
                            0 <= i <= total,
                            0 < n == self.additional_doses,
                            total == n + 1,
                            self.interdose_interval == Some(interval),
                            doses@.len() == i,
                            forall|j: int|
                                0 <= j < i ==> doses@[j] == expanded_dose_spec(*self, interval, j),
                        decreases total - i,
                    {
                        let mut dose = *self;
                        if i > 0 {
                            dose.time = fp::add(
                                self.time,
                                fp::mul(fp::from_u64(i as u64), interval),
                            );
                        }
                        dose.additional_doses = 0;
                        doses.push(dose);
                        i = i + 1;
                    }
                    doses
                },
                None => {
                    let mut doses: Vec<DosingRecord> = Vec::new();
                    doses.push(*self);
                    doses
                },
            }
        } else {
            let mut doses: Vec<DosingRecord> = Vec::new();
            doses.push(*self);
            doses
        }
    }
}

/// The binary64 sum of the amounts of every dose an individual's records
/// expand to, accumulated record by record and repeat by repeat.
pub open spec fn add_dose_amounts(acc: u64, amount: u64, n: nat) -> u64
    decreases n,
{
    if n == 0 {
        acc
    } else {
        add_dose_amounts(fadd(acc, amount), amount, (n - 1) as nat)
    }
}

/// How many single doses a record expands to.
pub open spec fn expand_len_spec(d: DosingRecord) -> nat {
    if d.additional_doses > 0 && d.interdose_interval is Some {
        (d.additional_doses + 1) as nat
    } else {
        1
    }
}

/// The running total of expanded dose amounts from record `i` onward.
pub open spec fn total_dose_from(doses: Seq<DosingRecord>, i: int, acc: u64) -> u64
    decreases doses.len() - i,
{
    if i < 0 || i >= doses.len() {
        acc
    } else {
        total_dose_from(doses, i + 1, add_dose_amounts(acc, doses[i].amount, expand_len_spec(doses[i])))
    }
}

/// One study subject: ordered observations, dosing history and covariates.
#[derive(Debug, Clone)]
pub struct Individual {
    pub id: i32,
    pub observations: Vec<Observation>,
    pub dosing_records: Vec<DosingRecord>,
    pub covariates: Vec<(String, u64)>,
}

impl Individual {
    /// The observation sequence, for contracts.
    pub open spec fn obs_spec(&self) -> Seq<Observation> {
        self.observations@
    }

    /// The dosing sequence, for contracts.
    pub open spec fn doses_spec(&self) -> Seq<DosingRecord> {
        self.dosing_records@
    }

    pub fn new(
        id: i32,
        observations: Vec<Observation>,
        dosing_records: Vec<DosingRecord>,
        covariates: Vec<(String, u64)>,
    ) -> (r: Self)
        ensures
            r.id == id,
            r.obs_spec() == observations@,
            r.doses_spec() == dosing_records@,
            r.covariates@ == covariates@,
    {
        Individual { id, observations, dosing_records, covariates }
    }

    pub fn observations(&self) -> (r: &Vec<Observation>)
        ensures
            r@ == self.obs_spec(),
    {
        &self.observations
    }

    pub fn dosing_records(&self) -> (r: &Vec<DosingRecord>)
        ensures
            r@ == self.doses_spec(),
    {
        &self.dosing_records
    }

    pub fn covariates(&self) -> (r: &Vec<(String, u64)>)
        ensures
            r@ == self.covariates@,
    {
        &self.covariates
    }

    pub fn n_observations(&self) -> (n: usize)
        ensures
            n == self.obs_spec().len(),
    {
        self.observations.len()
    }

    /// The times of all observations, in order.
    pub fn observation_times(&self) -> (r: Vec<u64>)
        ensures
            r@.len() == self.obs_spec().len(),
            forall|i: int| 0 <= i < r@.len() ==> r@[i] == self.obs_spec()[i].time,
    {
        let mut r: Vec<u64> = Vec::new();
        let n = self.observations.len();
        for i in 0..n
            invariant
                n == self.obs_spec().len(),
                r@.len() == i,
                forall|k: int| 0 <= k < i ==> r@[k] == self.obs_spec()[k].time,
        {
            r.push(self.observations[i].time);
        }
        r
    }

    /// The values of the concentration observations, in order.
    pub fn concentration_values(&self) -> (r: Vec<u64>)
        ensures
            r@ == concentration_values_spec(self.obs_spec()),
    {
        let mut r: Vec<u64> = Vec::new();
        let n = self.observations.len();
        for i in 0..n
            invariant
                n == self.obs_spec().len(),
                r@ == concentration_values_spec(self.obs_spec().take(i as int)),
        {
            proof {
                assert(self.obs_spec().take(i + 1).drop_last() =~= self.obs_spec().take(i as int));
                assert(self.obs_spec().take(i + 1).last() == self.obs_spec()[i as int]);
            }
            if self.observations[i].observation_type == ObservationType::Concentration {
                r.push(self.observations[i].value);
            }
        }
        proof {
            assert(self.obs_spec().take(self.obs_spec().len() as int) =~= self.obs_spec());
        }
        r
    }

    /// The covariate stored under this name, if any.
    pub fn get_covariate(&self, name: &str) -> (r: Option<u64>)
        ensures
            ({
                let idx = find_covariate_from(self.covariates@, name@, 0);
                if idx < self.covariates@.len() {
                    r == Some(self.covariates@[idx].1)
                } else {
                    r == Option::<u64>::None
                }
            }),
    {
        let n = self.covariates.len();
        for i in 0..n
            invariant
                n == self.covariates@.len(),
                find_covariate_from(self.covariates@, name@, 0) == find_covariate_from(
                    self.covariates@,
                    name@,
                    i as int,
                ),
        {
            if self.covariates[i].0.as_str().eq(name) {
                return Some(self.covariates[i].1);
            }
        }
        None
    }

    /// Stores a covariate, replacing an earlier value under the same name.
    pub fn set_covariate(&mut self, name: String, value: u64)
        ensures
            final(self).id == old(self).id,
            final(self).obs_spec() == old(self).obs_spec(),
            final(self).doses_spec() == old(self).doses_spec(),
            ({
                let idx = find_covariate_from(old(self).covariates@, name@, 0);
                if idx < old(self).covariates@.len() {
                    final(self).covariates@ =~= old(self).covariates@.update(
                        idx,
                        (old(self).covariates@[idx].0, value),
                    )
                } else {
                    final(self).covariates@ =~= old(self).covariates@.push((name, value))
                }
            }),
    {
        let n = self.covariates.len();
        for i in 0..n
            invariant
                n == self.covariates@.len(),
                self == old(self),
                find_covariate_from(self.covariates@, name@, 0) == find_covariate_from(
                    self.covariates@,
                    name@,
                    i as int,
                ),
        {
            if self.covariates[i].0.as_str().eq(name.as_str()) {
                let key = self.covariates[i].0.clone();
                self.covariates.set(i, (key, value));
                proof {
                    assert(final(self).covariates@ =~= old(self).covariates@.update(
                        i as int,
                        (old(self).covariates@[i as int].0, value),
                    ));
                }
                return ;
            }
        }
        self.covariates.push((name, value));
    }

    /// The time of the first dosing record, if there is one.
    pub fn first_dose_time(&self) -> (r: Option<u64>)
        ensures
            r == if self.doses_spec().len() > 0 {
                Some(self.doses_spec()[0].time)
            } else {
                Option::<u64>::None
            },
    {
        if self.dosing_records.len() > 0 {
            Some(self.dosing_records[0].time)
        } else {
            None
        }
    }

    /// The time of the last observation, if there is one.
    pub fn last_observation_time(&self) -> (r: Option<u64>)
        ensures
            r == if self.obs_spec().len() > 0 {
                Some(self.obs_spec()[self.obs_spec().len() - 1].time)
            } else {
                Option::<u64>::None
            },
    {
        let n = self.observations.len();
        if n > 0 {
            Some(self.observations[n - 1].time)
        } else {
            None
        }
    }

    /// The binary64 sum of every expanded dose amount.
    pub fn total_dose(&self) -> (r: u64)
        ensures
            r == total_dose_from(self.doses_spec(), 0, F_ZERO),
    {
        let mut acc = F_ZERO;
        let n = self.dosing_records.len();
        for i in 0..n
            invariant
                n == self.doses_spec().len(),
                total_dose_from(self.doses_spec(), 0, F_ZERO) == total_dose_from(
                    self.doses_spec(),
                    i as int,
                    acc,
                ),
        {
            let expanded = self.dosing_records[i].expand_multiple_doses();
            let ghost d = self.doses_spec()[i as int];
            let mut j: usize = 0;
            let m = expanded.len();
            proof {
                assert(forall|k: int|
                    0 <= k < expanded@.len() ==> (#[trigger] expanded@[k]).amount == d.amount);
                assert(m == expand_len_spec(d));
            }
            let ghost acc0 = acc;
            while j < m
                invariant
                    m == expanded@.len(),
                    m == expand_len_spec(d),
                    0 <= j <= m,
                    forall|k: int|
                        0 <= k < expanded@.len() ==> (#[trigger] expanded@[k]).amount == d.amount,
                    add_dose_amounts(acc, d.amount, (m - j) as nat) == add_dose_amounts(
                        acc0,
                        d.amount,
                        m as nat,
                    ),
                decreases m - j,
            {
                acc = fp::add(acc, expanded[j].amount);
                j = j + 1;
            }
        }
        acc
    }

    /// The first observation's value, when it sits at time zero.
    pub fn baseline_measurement(&self) -> (r: Option<u64>)
        ensures
            r == if self.obs_spec().len() > 0 && feq(self.obs_spec()[0].time, F_ZERO) {
                Some(self.obs_spec()[0].value)
            } else {
                Option::<u64>::None
            },
    {
        if self.observations.len() > 0 && fp::eq(self.observations[0].time, F_ZERO) {
            Some(self.observations[0].value)
        } else {
            None
        }
    }
}

/// The values of the concentration-typed observations, in order.
pub open spec fn concentration_values_spec(obs: Seq<Observation>) -> Seq<u64>
    decreases obs.len(),
{
    if obs.len() == 0 {
        Seq::empty()
    } else {
        let rest = concentration_values_spec(obs.drop_last());
        if obs.last().observation_type == ObservationType::Concentration {
            rest.push(obs.last().value)
        } else {
            rest
        }
    }
}

/// The index of the first covariate pair whose name reads as `name`.
pub open spec fn find_covariate_from(cov: Seq<(String, u64)>, name: Seq<char>, i: int) -> int
    decreases cov.len() - i,
{
    if i < 0 || i >= cov.len() {
        cov.len() as int
    } else if cov[i].0@ == name {
        i
    } else {
        find_covariate_from(cov, name, i + 1)
    }
}


/// One row of a NONMEM-style tabular dataset, already read into plain
/// values.
#[derive(Debug, Clone, Copy, PartialEq, Eq, Structural)]
pub struct NonmemRecord {
    pub id: i32,
    pub time: u64,
    pub dv: Option<u64>,
    pub amt: Option<u64>,
    pub evid: i32,
    pub cmt: Option<i32>,
    pub rate: Option<u64>,
    pub ii: Option<u64>,
    pub addl: Option<i32>,
    pub ss: Option<i32>,
}

/// A record passes the row-level checks: a non-negative time and, when an
/// amount is present, a non-negative amount.
pub open spec fn record_ok_spec(r: NonmemRecord) -> bool {
    &&& !flt(r.time, F_ZERO)
    &&& match r.amt {
        Some(a) => !flt(a, F_ZERO),
        None => true,
    }
}

/// Row-level validation of a batch of records: rejects the first negative
/// time or negative dose amount.
pub fn validate_records(records: &Vec<NonmemRecord>) -> (r: Result<(), DataError>)
    ensures
        match r {
            Ok(()) => forall|i: int| 0 <= i < records@.len() ==> record_ok_spec(#[trigger] records@[i]),
            Err(e) => match e {
                DataError::NegativeTime(t) => exists|i: int|
                    0 <= i < records@.len() && (forall|k: int|
                        0 <= k < i ==> record_ok_spec(#[trigger] records@[k])) && flt(
                        (#[trigger] records@[i]).time,
                        F_ZERO,
                    ) && t == records@[i].time,
                DataError::InvalidDose(a) => exists|i: int|
                    0 <= i < records@.len() && (forall|k: int|
                        0 <= k < i ==> record_ok_spec(#[trigger] records@[k])) && !flt(
                        (#[trigger] records@[i]).time,
                        F_ZERO,
                    ) && records@[i].amt == Some(a) && flt(a, F_ZERO),
                _ => false,
            },
        },
{
    let n = records.len();
    for i in 0..n
        invariant
            n == records@.len(),
            forall|k: int| 0 <= k < i ==> record_ok_spec(#[trigger] records@[k]),
    {
        let rec = records[i];
        if fp::lt(rec.time, F_ZERO) {
            return Err(DataError::NegativeTime(rec.time));
        }
        match rec.amt {
            Some(a) => {
                if fp::lt(a, F_ZERO) {
                    return Err(DataError::InvalidDose(a));
                }
            },
            None => {},
        }
    }
    Ok(())
}

/// The observation a record yields: rows with event id zero and a dependent
/// value become measurements, positive values as concentrations and others
/// as missing.
pub open spec fn obs_of_record(r: NonmemRecord) -> Option<Observation> {
    if r.evid == 0 {
        match r.dv {
            Some(dv) => Some(
                Observation {
                    time: r.time,
                    value: dv,
                    compartment: match r.cmt {
                        Some(c) => c,
                        None => 1,
                    },
                    observation_type: if flt(F_ZERO, dv) {
                        ObservationType::Concentration
                    } else {
                        ObservationType::Missing
                    },
                },
            ),
            None => None,
        }
    } else {
        None
    }
}

/// The dosing record a record yields: rows with event id one and an amount
/// become doses, infusions when a positive rate is present.
pub open spec fn dose_of_record(r: NonmemRecord) -> Option<DosingRecord> {
    if r.evid == 1 {
        match r.amt {
            Some(amt) => Some(
                DosingRecord {
                    time: r.time,
                    amount: amt,
                    compartment: match r.cmt {
                        Some(c) => c,
                        None => 1,
                    },
                    rate: r.rate,
                    dosing_type: if (match r.rate {
                        Some(rt) => flt(F_ZERO, rt),
                        None => false,
                    }) {
                        DosingType::Infusion
                    } else {
                        DosingType::Bolus
                    },
                    additional_doses: match r.addl {
                        Some(a) => a,
                        None => 0,
                    },
                    interdose_interval: r.ii,
                    steady_state: (match r.ss {
                        Some(s) => s,
                        None => 0,
                    }) == 1,
                },
            ),
            None => None,
        }
    } else {
        None
    }
}

/// All observations a batch of records yields, in order.
pub open spec fn obs_list_spec(records: Seq<NonmemRecord>) -> Seq<Observation>
    decreases records.len(),
{
    if records.len() == 0 {
        Seq::empty()
    } else {
        let rest = obs_list_spec(records.drop_last());
        match obs_of_record(records.last()) {
            Some(o) => rest.push(o),
            None => rest,
        }
    }
}

/// All dosing records a batch of records yields, in order.
pub open spec fn dose_list_spec(records: Seq<NonmemRecord>) -> Seq<DosingRecord>
    decreases records.len(),
{
    if records.len() == 0 {
        Seq::empty()
    } else {
        let rest = dose_list_spec(records.drop_last());
        match dose_of_record(records.last()) {
            Some(d) => rest.push(d),
            None => rest,
        }
    }
}

/// Observation times never decrease along the sequence.
pub open spec fn obs_times_sorted(obs: Seq<Observation>) -> bool {
    forall|k: int| 1 <= k < obs.len() ==> !flt((#[trigger] obs[k]).time, obs[k - 1].time)
}

/// Turns one individual's time-ordered records into an `Individual`:
/// observation rows and dosing rows are split out; an individual with no
/// observations, or with observation times that go backward, is rejected.
pub fn process_individual_records(id: i32, records: Vec<NonmemRecord>) -> (r: Result<
    Individual,
    DataError,
>)
    ensures
        ({
            let obs = obs_list_spec(records@);
            let doses = dose_list_spec(records@);
            match r {
                Ok(ind) => {
                    &&& obs.len() > 0
                    &&& obs_times_sorted(obs)
                    &&& ind.id == id
                    &&& ind.observations@ == obs
                    &&& ind.dosing_records@ == doses
                    &&& ind.covariates@.len() == 0
                },
                Err(e) => match e {
                    DataError::NoObservations(i) => i == id && obs.len() == 0,
                    DataError::InvalidTimeSequence(i) => i == id && obs.len() > 0
                        && !obs_times_sorted(obs),
                    _ => false,
                },
            }
        }),
{
    let mut observations: Vec<Observation> = Vec::new();
    let mut dosing_records: Vec<DosingRecord> = Vec::new();
    let n = records.len();
    for i in 0..n
        invariant
            n == records@.len(),
            observations@ == obs_list_spec(records@.take(i as int)),
            dosing_records@ == dose_list_spec(records@.take(i as int)),
    {
        proof {
            assert(records@.take(i + 1).drop_last() =~= records@.take(i as int));
            assert(records@.take(i + 1).last() == records@[i as int]);
        }
        let rec = records[i];
        if rec.evid == 0 {
            match rec.dv {
                Some(dv) => {
                    let obs = Observation {
                        time: rec.time,
                        value: dv,
                        compartment: match rec.cmt {
                            Some(c) => c,
                            None => 1,
                        },
                        observation_type: if fp::lt(F_ZERO, dv) {
                            ObservationType::Concentration
                        } else {
                            ObservationType::Missing
                        },
                    };
                    observations.push(obs);
                },
                None => {},
            }
        } else if rec.evid == 1 {
            match rec.amt {
                Some(amt) => {
                    let has_positive_rate = match rec.rate {
                        Some(rt) => fp::lt(F_ZERO, rt),
                        None => false,
                    };
                    let dose = DosingRecord {
                        time: rec.time,
                        amount: amt,
                        compartment: match rec.cmt {
                            Some(c) => c,
                            None => 1,
                        },
                        rate: rec.rate,
                        dosing_type: if has_positive_rate {
                            DosingType::Infusion
                        } else {
                            DosingType::Bolus
                        },
                        additional_doses: match rec.addl {
                            Some(a) => a,
                            None => 0,
                        },
                        interdose_interval: rec.ii,
                        steady_state: (match rec.ss {
                            Some(s) => s,
                            None => 0,
                        }) == 1,
                    };
                    dosing_records.push(dose);
                },
                None => {},
            }
        }
    }
    proof {
        assert(records@.take(records@.len() as int) =~= records@);
    }

    if observations.len() == 0 {
        return Err(DataError::NoObservations(id));
    }

    let m = observations.len();
    for i in 1..m
        invariant
            m == observations@.len(),
            observations@ == obs_list_spec(records@),
            forall|k: int|
                1 <= k < i ==> !flt((#[trigger] observations@[k]).time, observations@[k - 1].time),
    {
        if fp::lt(observations[i].time, observations[i - 1].time) {
            return Err(DataError::InvalidTimeSequence(id));
        }
    }

    Ok(Individual { id, observations, dosing_records, covariates: Vec::new() })
}

/// The sum of the observation counts of the individuals from index `i` on.
pub open spec fn obs_count_from(inds: Seq<Individual>, i: int) -> int
    decreases inds.len() - i,
{
    if i < 0 || i >= inds.len() {
        0
    } else {
        inds[i].observations@.len() + obs_count_from(inds, i + 1)
    }
}

/// The observation count of a suffix is never negative.
pub proof fn lemma_obs_count_nonneg(inds: Seq<Individual>, i: int)
    ensures
        obs_count_from(inds, i) >= 0,
    decreases inds.len() - i,
{
    if 0 <= i < inds.len() {
        lemma_obs_count_nonneg(inds, i + 1);
    }
}

/// The concentration observations of a sequence of observations, as
/// `(time, value)` pairs in order.
pub open spec fn conc_pairs_spec(obs: Seq<Observation>) -> Seq<(u64, u64)>
    decreases obs.len(),
{
    if obs.len() == 0 {
        Seq::empty()
    } else {
        let rest = conc_pairs_spec(obs.drop_last());
        if obs.last().observation_type == ObservationType::Concentration {
            rest.push((obs.last().time, obs.last().value))
        } else {
            rest
        }
    }
}

/// The concentration pairs of every individual from index `i` on, in order.
pub open spec fn all_conc_pairs_from(inds: Seq<Individual>, i: int) -> Seq<(u64, u64)>
    decreases inds.len() - i,
{
    if i < 0 || i >= inds.len() {
        Seq::empty()
    } else {
        conc_pairs_spec(inds[i].observations@) + all_conc_pairs_from(inds, i + 1)
    }
}

/// A study dataset: its individuals, ordered as loaded, and the names of the
/// covariate columns.
#[derive(Debug, Clone)]
pub struct Dataset {
    pub individuals: Vec<Individual>,
    pub covariate_names: Vec<String>,
}

impl Dataset {
    pub fn new(individuals: Vec<Individual>, covariate_names: Vec<String>) -> (r: Self)
        ensures
            r.individuals@ == individuals@,
            r.covariate_names@ == covariate_names@,
    {
        Dataset { individuals, covariate_names }
    }

    pub fn individuals(&self) -> (r: &Vec<Individual>)
        ensures
            r@ == self.individuals@,
    {
        &self.individuals
    }

    pub fn n_individuals(&self) -> (n: usize)
        ensures
            n == self.individuals@.len(),
    {
        self.individuals.len()
    }

    /// The total observation count across individuals.
    pub fn n_observations(&self) -> (n: usize)
        requires
            obs_count_from(self.individuals@, 0) <= usize::MAX,
        ensures
            n == obs_count_from(self.individuals@, 0),
    {
        let mut acc: usize = 0;
        let n = self.individuals.len();
        for i in 0..n
            invariant
                n == self.individuals@.len(),
                obs_count_from(self.individuals@, 0) <= usize::MAX,
                acc + obs_count_from(self.individuals@, i as int) == obs_count_from(
                    self.individuals@,
                    0,
                ),
        {
            proof {
                lemma_obs_count_nonneg(self.individuals@, i + 1);
            }
            acc = acc + self.individuals[i].observations.len();
        }
        acc
    }

    pub fn covariate_names(&self) -> (r: &Vec<String>)
        ensures
            r@ == self.covariate_names@,
    {
        &self.covariate_names
    }

    /// The first individual carrying this id, if any.
    pub fn get_individual(&self, id: i32) -> (r: Option<&Individual>)
        ensures
            ({
                let idx = find_id_from(self.individuals@, id, 0);
                if idx < self.individuals@.len() {
                    r matches Some(ind) && *ind == self.individuals@[idx]
                } else {
                    r matches None::<&Individual>
                }
            }),
    {
        let n = self.individuals.len();
        for i in 0..n
            invariant
                n == self.individuals@.len(),
                find_id_from(self.individuals@, id, 0) == find_id_from(
                    self.individuals@,
                    id,
                    i as int,
                ),
        {
            if self.individuals[i].id == id {
                return Some(&self.individuals[i]);
            }
        }
        None
    }

    /// Every concentration observation across individuals as `(time, value)`
    /// pairs, in dataset order.
    pub fn get_concentration_data(&self) -> (r: Vec<(u64, u64)>)
        ensures
            r@ == all_conc_pairs_from(self.individuals@, 0),
    {
        let mut r: Vec<(u64, u64)> = Vec::new();
        let n = self.individuals.len();
        proof {
            assert(r@ + all_conc_pairs_from(self.individuals@, 0) =~= all_conc_pairs_from(
                self.individuals@,
                0,
            ));
        }
        for i in 0..n
            invariant
                n == self.individuals@.len(),
                r@ + all_conc_pairs_from(self.individuals@, i as int) == all_conc_pairs_from(
                    self.individuals@,
                    0,
                ),
        {
            let obs = &self.individuals[i].observations;
            let m = obs.len();
            let ghost r0 = r@;
            for j in 0..m
                invariant
                    m == obs@.len(),
                    obs@ == self.individuals@[i as int].observations@,
                    r@ == r0 + conc_pairs_spec(obs@.take(j as int)),
            {
                proof {
                    assert(obs@.take(j + 1).drop_last() =~= obs@.take(j as int));
                    assert(obs@.take(j + 1).last() == obs@[j as int]);
                }
                if obs[j].observation_type == ObservationType::Concentration {
                    r.push((obs[j].time, obs[j].value));
                }
            }
            proof {
                assert(obs@.take(obs@.len() as int) =~= obs@);
                assert(r@ + all_conc_pairs_from(self.individuals@, i + 1) =~= all_conc_pairs_from(
                    self.individuals@,
                    0,
                ));
            }
        }
        proof {
            assert(r@ =~= all_conc_pairs_from(self.individuals@, 0));
        }
        r
    }
}

/// The index of the first individual with this id, or the length.
pub open spec fn find_id_from(inds: Seq<Individual>, id: i32, i: int) -> int
    decreases inds.len() - i,
{
    if i < 0 || i >= inds.len() {
        inds.len() as int
    } else if inds[i].id == id {
        i
    } else {
        find_id_from(inds, id, i + 1)
    }
}


/// The observation times of one individual, in order.
pub open spec fn times_of(obs: Seq<Observation>) -> Seq<u64> {
    Seq::new(obs.len(), |k: int| obs[k].time)
}

/// All observation times of the individuals from `j` on, in dataset order.
pub open spec fn all_times_from(inds: Seq<Individual>, j: int) -> Seq<u64>
    decreases inds.len() - j,
{
    if j < 0 || j >= inds.len() {
        Seq::empty()
    } else {
        times_of(inds[j].observations@) + all_times_from(inds, j + 1)
    }
}

/// Adjacent elements never go backward in the IEEE order.
pub open spec fn sorted_by_fle(s: Seq<u64>) -> bool {
    forall|i: int| 1 <= i < s.len() ==> fle(s[i - 1], #[trigger] s[i])
}

/// No element is a NaN bit pattern.
pub open spec fn no_nan_times(s: Seq<u64>) -> bool {
    forall|i: int| 0 <= i < s.len() ==> !crate::fp::f_is_nan(#[trigger] s[i])
}

/// Adjacent elements sit at least the machine epsilon apart.
pub open spec fn eps_separated(s: Seq<u64>) -> bool {
    forall|i: int|
        1 <= i < s.len() ==> !flt(
            crate::fp::f_abs_bits(fsub(#[trigger] s[i], s[i - 1])),
            crate::fp::F_EPSILON,
        )
}

/// The value is an element of the grid, or within the machine epsilon of
/// one.
pub open spec fn covered_by(t: u64, r: Seq<u64>) -> bool {
    exists|k: int|
        0 <= k < r.len() && (t == #[trigger] r[k] || flt(
            crate::fp::f_abs_bits(fsub(t, r[k])),
            crate::fp::F_EPSILON,
        ))
}

/// Every element of `r` occurs in `s`.
pub open spec fn drawn_from(r: Seq<u64>, s: Seq<u64>) -> bool {
    forall|k: int| 0 <= k < r.len() ==> s.contains(#[trigger] r[k])
}

/// Retain-first deduplication of a sorted grid: an element within the
/// machine epsilon of the last retained one is dropped.
pub open spec fn dedup_eps_from(s: Seq<u64>, i: int, acc: Seq<u64>) -> Seq<u64>
    decreases s.len() - i,
{
    if i < 0 || i >= s.len() {
        acc
    } else if acc.len() > 0 && flt(
        crate::fp::f_abs_bits(fsub(s[i], acc.last())),
        crate::fp::F_EPSILON,
    ) {
        dedup_eps_from(s, i + 1, acc)
    } else {
        dedup_eps_from(s, i + 1, acc.push(s[i]))
    }
}

/// What deduplication guarantees over a sorted input: the result stays
/// sorted and epsilon-separated, extends the accumulator, takes its new
/// elements from the input, and leaves every input element covered.
pub proof fn lemma_dedup_props(s: Seq<u64>, i: int, acc: Seq<u64>)
    requires
        0 <= i <= s.len(),
        sorted_by_fle(s),
        sorted_by_fle(acc),
        eps_separated(acc),
        acc.len() > 0 && i < s.len() ==> fle(acc.last(), s[i]),
    ensures
        ({
            let r = dedup_eps_from(s, i, acc);
            &&& sorted_by_fle(r)
            &&& eps_separated(r)
            &&& r.len() >= acc.len()
            &&& forall|k: int| 0 <= k < acc.len() ==> r[k] == acc[k]
            &&& forall|k: int| acc.len() <= k < r.len() ==> s.contains(#[trigger] r[k])
            &&& forall|t: int| i <= t < s.len() ==> covered_by(#[trigger] s[t], r)
            &&& (r.len() > 0 <==> (acc.len() > 0 || i < s.len()))
        }),
    decreases s.len() - i,
{
    let r = dedup_eps_from(s, i, acc);
    if 0 <= i < s.len() {
        if i + 1 < s.len() {
            assert(fle(s[i], s[i + 1]));
        }
        if acc.len() > 0 && flt(
            crate::fp::f_abs_bits(fsub(s[i], acc.last())),
            crate::fp::F_EPSILON,
        ) {
            if i + 1 < s.len() {
                crate::fp::lemma_fle_trans(acc.last(), s[i], s[i + 1]);
            }
            lemma_dedup_props(s, i + 1, acc);
            assert(r[acc.len() - 1] == acc.last());
            assert(covered_by(s[i], r));
        } else {
            let acc2 = acc.push(s[i]);
            assert(sorted_by_fle(acc2)) by {
                assert(forall|k: int|
                    1 <= k < acc.len() ==> fle(acc2[k - 1], #[trigger] acc2[k]));
            }
            assert(eps_separated(acc2));
            lemma_dedup_props(s, i + 1, acc2);
            assert(r[acc2.len() - 1] == s[i]);
            assert(covered_by(s[i], r));
            assert(s.contains(s[i]));
        }
    }
}

/// Insertion sort on bit patterns under the IEEE order.
fn sort_times(v: Vec<u64>) -> (r: Vec<u64>)
    requires
        no_nan_times(v@),
    ensures
        sorted_by_fle(r@),
        no_nan_times(r@),
        r@.len() == v@.len(),
        r@.to_multiset() == v@.to_multiset(),
{
    let mut r: Vec<u64> = Vec::new();
    let n = v.len();
    proof {
        broadcast use vstd::seq_lib::group_to_multiset_ensures;

        assert(v@.take(0) =~= Seq::<u64>::empty());
        assert(r@.to_multiset() =~= v@.take(0).to_multiset());
    }
    for idx in 0..n
        invariant
            n == v@.len(),
            no_nan_times(v@),
            sorted_by_fle(r@),
            no_nan_times(r@),
            r@.len() == idx,
            r@.to_multiset() == v@.take(idx as int).to_multiset(),
    {
        let x = v[idx];
        let mut p: usize = 0;
        while p < r.len() && fp::le(r[p], x)
            invariant
                0 <= p <= r@.len(),
                forall|k: int| 0 <= k < p ==> fle(#[trigger] r@[k], x),
            decreases r@.len() - p,
        {
            p = p + 1;
        }
        proof {
            if (p as int) < r@.len() {
                crate::fp::lemma_fle_total(r@[p as int], x);
                assert(fle(x, r@[p as int]));
            }
        }
        let ghost old_r = r@;
        r.insert(p, x);
        proof {
            broadcast use vstd::seq_lib::group_to_multiset_ensures;

            assert(r@ == old_r.insert(p as int, x));
            assert(r@.to_multiset() == old_r.to_multiset().insert(x));
            assert(v@.take(idx + 1) =~= v@.take(idx as int).push(x));
            assert(v@.take(idx + 1).to_multiset() == v@.take(idx as int).to_multiset().insert(x));
            assert forall|k: int| 1 <= k < r@.len() implies fle(r@[k - 1], #[trigger] r@[k]) by {
                if k < p {
                    assert(r@[k - 1] == old_r[k - 1] && r@[k] == old_r[k]);
                } else if k == p {
                    assert(r@[k] == x && r@[k - 1] == old_r[k - 1]);
                } else if k == p + 1 {
                    assert(r@[k - 1] == x && r@[k] == old_r[p as int]);
                } else {
                    assert(r@[k - 1] == old_r[k - 2] && r@[k] == old_r[k - 1]);
                }
            }
            assert forall|k: int| 0 <= k < r@.len() implies !crate::fp::f_is_nan(
                #[trigger] r@[k],
            ) by {
                if k < p {
                    assert(r@[k] == old_r[k]);
                } else if k == p {
                    assert(r@[k] == x && x == v@[idx as int]);
                } else {
                    assert(r@[k] == old_r[k - 1]);
                }
            }
        }
    }
    proof {
        assert(v@.take(n as int) =~= v@);
    }
    r
}

impl Dataset {
    /// The distinct observation time grid: every observation time across the
    /// individuals, sorted ascending in the IEEE order and thinned so that
    /// no retained time sits within the machine epsilon of the one retained
    /// before it.  Every observation time is either retained or within the
    /// machine epsilon of a retained time.
    pub fn get_all_times(&self) -> (r: Vec<u64>)
        requires
            no_nan_times(all_times_from(self.individuals@, 0)),
        ensures
            sorted_by_fle(r@),
            eps_separated(r@),
            drawn_from(r@, all_times_from(self.individuals@, 0)),
            forall|t: int|
                0 <= t < all_times_from(self.individuals@, 0).len() ==> covered_by(
                    #[trigger] all_times_from(self.individuals@, 0)[t],
                    r@,
                ),
            r@.len() > 0 <==> all_times_from(self.individuals@, 0).len() > 0,
    {
        let ghost inds = self.individuals@;
        let ghost all = all_times_from(inds, 0);

        let mut times: Vec<u64> = Vec::new();
        let n = self.individuals.len();
        proof {
            assert(times@ + all_times_from(inds, 0) =~= all_times_from(inds, 0));
        }
        for j in 0..n
            invariant
                n == self.individuals@.len(),
                inds == self.individuals@,
                times@ + all_times_from(inds, j as int) == all_times_from(inds, 0),
        {
            let obs = &self.individuals[j].observations;
            let m = obs.len();
            let ghost t0 = times@;
            for k in 0..m
                invariant
                    m == obs@.len(),
                    obs@ == self.individuals@[j as int].observations@,
                    times@ == t0 + times_of(obs@).take(k as int),
            {
                proof {
                    assert(times_of(obs@).take(k + 1) =~= times_of(obs@).take(k as int).push(
                        obs@[k as int].time,
                    ));
                }
                times.push(obs[k].time);
            }
            proof {
                assert(times_of(obs@).take(m as int) =~= times_of(obs@));
                assert(times@ + all_times_from(inds, j + 1) =~= all_times_from(inds, 0));
            }
        }
        proof {
            assert(times@ =~= all);
            assert(no_nan_times(times@));
        }

        let sorted = sort_times(times);

        let mut result: Vec<u64> = Vec::new();
        let s_len = sorted.len();
        proof {
            broadcast use vstd::seq_lib::group_to_multiset_ensures;

        }
        for i in 0..s_len
            invariant
                s_len == sorted@.len(),
                dedup_eps_from(sorted@, 0, Seq::empty()) == dedup_eps_from(
                    sorted@,
                    i as int,
                    result@,
                ),
        {
            let keep = if result.len() == 0 {
                true
            } else {
                !fp::lt(
                    fp::abs(fp::sub(sorted[i], result[result.len() - 1])),
                    crate::fp::F_EPSILON,
                )
            };
            if keep {
                result.push(sorted[i]);
            }
        }

        proof {
            broadcast use vstd::seq_lib::group_to_multiset_ensures;

            lemma_dedup_props(sorted@, 0, Seq::empty());
            assert(result@ == dedup_eps_from(sorted@, 0, Seq::empty()));
            assert(sorted@.to_multiset() == all.to_multiset());
            assert forall|k: int| 0 <= k < result@.len() implies all.contains(
                #[trigger] result@[k],
            ) by {
                assert(sorted@.contains(result@[k]));
                assert(sorted@.to_multiset().count(result@[k]) > 0);
            }
            assert forall|t: int| 0 <= t < all.len() implies covered_by(#[trigger] all[t], result@)
            by {
                assert(all.contains(all[t]));
                assert(all.to_multiset().count(all[t]) > 0);
                assert(sorted@.contains(all[t]));
                let tw = choose|tw: int| 0 <= tw < sorted@.len() && sorted@[tw] == all[t];
                assert(covered_by(sorted@[tw], result@));
            }
        }
        result
    }
}

} // verus!
