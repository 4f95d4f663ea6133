//! Whole-dataset and fit-level sanity checks.

use vstd::prelude::*;

use crate::data::{obs_count_from, obs_times_sorted, DataError, Dataset};
use crate::fp;
use crate::fp::f_is_finite;

verus! {

/// Checks that a dataset holds at least one individual with at least one
/// observation, and that every individual's observation times never go
/// backward.  Individuals without observations are skipped, as they carry
/// nothing to order.
#[verifier::rlimit(60)]
pub fn validate_dataset(dataset: &Dataset) -> (r: Result<(), DataError>)
    requires
        obs_count_from(dataset.individuals@, 0) <= usize::MAX,
    ensures
        ({
            let inds = dataset.individuals@;
            match r {
                Ok(()) => {
                    &&& inds.len() > 0
                    &&& obs_count_from(inds, 0) > 0
                    &&& forall|i: int|
                        0 <= i < inds.len() ==> obs_times_sorted(
                            (#[trigger] inds[i]).observations@,
                        )
                },
                Err(e) => match e {
                    DataError::InvalidFormat(m) => (inds.len() == 0 && m@
                        == "No individuals in dataset"@) || (inds.len() > 0 && obs_count_from(
                        inds,
                        0,
                    ) == 0 && m@ == "No observations in dataset"@),
                    DataError::InvalidTimeSequence(id) => {
                        &&& inds.len() > 0
                        &&& obs_count_from(inds, 0) > 0
                        &&& exists|i: int|
                            0 <= i < inds.len() && (forall|k: int|
                                0 <= k < i ==> obs_times_sorted(
                                    (#[trigger] inds[k]).observations@,
                                )) && !obs_times_sorted((#[trigger] inds[i]).observations@) && id
                                == inds[i].id
                    },
                    _ => false,
                },
            }
        }),
{
    if dataset.n_individuals() == 0 {
        return Err(DataError::InvalidFormat("No individuals in dataset".to_owned()));
    }
    if dataset.n_observations() == 0 {
        return Err(DataError::InvalidFormat("No observations in dataset".to_owned()));
    }

    let n = dataset.individuals.len();
    for i in 0..n
        invariant
            n == dataset.individuals@.len(),
            n > 0,
            obs_count_from(dataset.individuals@, 0) > 0,
            forall|k: int|
                0 <= k < i ==> obs_times_sorted((#[trigger] dataset.individuals@[k]).observations@),
    {
        let individual = &dataset.individuals[i];
        let m = individual.observations.len();
        let mut j: usize = 1;
        while j < m
            invariant
                m == individual.observations@.len(),
                n == dataset.individuals@.len(),
                n > 0,
                obs_count_from(dataset.individuals@, 0) > 0,
                i < n,
                j >= 1,
                individual == dataset.individuals@[i as int],
                forall|k: int|
                    0 <= k < i ==> obs_times_sorted(
                        (#[trigger] dataset.individuals@[k]).observations@,
                    ),
                forall|k: int|
                    1 <= k < j ==> !fp::flt(
                        (#[trigger] individual.observations@[k]).time,
                        individual.observations@[k - 1].time,
                    ),
            decreases m - j,
        {
            if fp::lt(individual.observations[j].time, individual.observations[j - 1].time) {
                proof {
                    assert(!obs_times_sorted(dataset.individuals@[i as int].observations@));
                }
                return Err(DataError::InvalidTimeSequence(individual.id));
            }
            j = j + 1;
        }
        proof {
            assert(obs_times_sorted(dataset.individuals@[i as int].observations@));
        }
    }
    Ok(())
}

/// A non-finite entry exists in the sequence at or after `i`.
pub open spec fn has_nonfinite_from(v: Seq<u64>, i: int) -> bool {
    exists|k: int| i <= k < v.len() && !f_is_finite(#[trigger] v[k])
}

/// Checks a fit's predictions against the observations they answer: the two
/// must agree in length, be non-empty, and every prediction must be finite.
pub fn validate_model_fit(predicted: &Vec<u64>, observed: &Vec<u64>) -> (r: Result<(), String>)
    ensures
        predicted@.len() != observed@.len() ==> (r matches Err(m) && m@
            == "Predicted and observed vectors must have same length"@),
        predicted@.len() == observed@.len() && predicted@.len() == 0 ==> (r matches Err(m) && m@
            == "No data to validate"@),
        predicted@.len() == observed@.len() && predicted@.len() > 0 && has_nonfinite_from(
            predicted@,
            0,
        ) ==> (r matches Err(m) && m@ == "Non-finite prediction"@),
        predicted@.len() == observed@.len() && predicted@.len() > 0 && !has_nonfinite_from(
            predicted@,
            0,
        ) ==> r matches Ok(()),
{
    if predicted.len() != observed.len() {
        return Err("Predicted and observed vectors must have same length".to_owned());
    }
    if predicted.len() == 0 {
        return Err("No data to validate".to_owned());
    }
    let n = predicted.len();
    for i in 0..n
        invariant
            n == predicted@.len(),
            n > 0,
            predicted@.len() == observed@.len(),
            forall|k: int| 0 <= k < i ==> f_is_finite(#[trigger] predicted@[k]),
    {
        if !fp::is_finite(predicted[i]) {
            proof {
                let iw: int = i as int;
                assert(iw <= iw < predicted@.len() && !f_is_finite(predicted@[iw]));
                assert(has_nonfinite_from(predicted@, 0));
            }
            return Err("Non-finite prediction".to_owned());
        }
    }
    proof {
        assert(!has_nonfinite_from(predicted@, 0));
    }
    Ok(())
}

} // verus!
