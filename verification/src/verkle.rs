//! Decisions of the benchmark of the commitment-based tree: which keys a
//! trial proves, what it expects of them, and what its outcome counts for.

use crate::aggregate::{evaluate_benchmark_results, is_aggregate_of, AggregateResult};
use crate::generator::{draws, BasicPRNG};
use crate::measure::{sum_measurements, totals_fit, Elapsed, TrialMeasurement};
use crate::size::{Size, VerkleProof};
use crate::trial::{leaves_proved, leaves_to_prove, BenchFailure, NUM_RUNS};
use vstd::prelude::*;
use vstd::string::StringExecFns;

verus! {

/// The dataset sizes of the benchmark, smallest first.
pub open spec fn dataset_sizes() -> Seq<usize> {
    seq![16_384usize, 65_536usize, 262_144usize, 1_048_576usize, 4_194_304usize, 16_777_216usize]
}

/// The dataset sizes of the benchmark, smallest first.
pub fn verkle_dataset_sizes() -> (sizes: Vec<usize>)
    ensures
        sizes@ == dataset_sizes(),
{
    let mut sizes: Vec<usize> = Vec::new();
    sizes.push(16_384);
    sizes.push(65_536);
    sizes.push(262_144);
    sizes.push(1_048_576);
    sizes.push(4_194_304);
    sizes.push(16_777_216);
    assert(sizes@ =~= dataset_sizes());
    sizes
}

/// The keys of a dataset of `total_keys` keys: the first draws of the
/// generator with the all-zero seed.
pub fn generate_dataset(total_keys: usize) -> (keys: Vec<[u8; 32]>)
    ensures
        keys.len() == total_keys,
        forall|i: int|
            0 <= i < total_keys ==> (#[trigger] keys[i])@ == draws(
                Seq::new(32, |j: int| 0u8),
                0,
                total_keys as nat,
            )[i],
{
    let mut prng = BasicPRNG::default();
    prng.rand_vec_bytes(total_keys)
}

/// The pairs a tree is built from: every key stands for its own value.
pub fn key_values(keys: &Vec<[u8; 32]>) -> (pairs: Vec<([u8; 32], [u8; 32])>)
    ensures
        pairs.len() == keys.len(),
        forall|i: int| 0 <= i < keys.len() ==> #[trigger] pairs[i] == (keys[i], keys[i]),
{
    let mut pairs: Vec<([u8; 32], [u8; 32])> = Vec::new();
    let mut i: usize = 0;
    while i < keys.len()
        invariant
            i <= keys.len(),
            pairs.len() == i,
            forall|j: int| 0 <= j < i ==> #[trigger] pairs[j] == (keys[j], keys[j]),
        decreases keys.len() - i,
    {
        pairs.push((keys[i], keys[i]));
        i += 1;
    }
    pairs
}

/// The keys every trial proves: the first `NUMBER_OF_LEAVES_TO_PROVE` keys
/// of the dataset, or all of them where it has fewer.
pub fn proof_keys(keys: &Vec<[u8; 32]>) -> (chosen: Vec<[u8; 32]>)
    ensures
        chosen@ == keys@.take(leaves_proved(keys@.len()) as int),
{
    let count = leaves_to_prove(keys.len());
    let mut chosen: Vec<[u8; 32]> = Vec::new();
    let mut i: usize = 0;
    while i < count
        invariant
            i <= count <= keys.len(),
            chosen@ == keys@.take(i as int),
        decreases count - i,
    {
        chosen.push(keys[i]);
        assert(keys@.take(i + 1) =~= keys@.take(i as int).push(keys@[i as int]));
        i += 1;
    }
    chosen
}

/// The values a proof for `chosen` is checked against: each key is present
/// with itself as its value.
pub fn expected_values(chosen: &Vec<[u8; 32]>) -> (values: Vec<Option<[u8; 32]>>)
    ensures
        values.len() == chosen.len(),
        forall|i: int| 0 <= i < chosen.len() ==> #[trigger] values[i] == Some(chosen[i]),
{
    let mut values: Vec<Option<[u8; 32]>> = Vec::new();
    let mut i: usize = 0;
    while i < chosen.len()
        invariant
            i <= chosen.len(),
            values.len() == i,
            forall|j: int| 0 <= j < i ==> #[trigger] values[j] == Some(chosen[j]),
        decreases chosen.len() - i,
    {
        values.push(Some(chosen[i]));
        i += 1;
    }
    values
}

/// What came of one trial.
#[derive(Debug, PartialEq, Eq)]
pub enum VerkleTrial {
    /// No proof could be produced for the keys.
    NoProof,
    /// A proof was produced in `proof_time` and checked in
    /// `verification_time`; `is_valid` is the verdict of the check.
    Checked { proof_time: Elapsed, proof: VerkleProof, verification_time: Elapsed, is_valid: bool },
}

/// What a trial counts for: its measurement where a proof was produced and
/// found valid, the failure otherwise.
pub open spec fn trial_outcome(trial: VerkleTrial) -> Result<TrialMeasurement, BenchFailure> {
    match trial {
        VerkleTrial::NoProof => Err(BenchFailure::ProofGeneration),
        VerkleTrial::Checked { proof_time, proof, verification_time, is_valid } => if is_valid {
            Ok((proof_time, verification_time, proof.size() as usize))
        } else {
            Err(BenchFailure::InvalidProof)
        },
    }
}

/// The measurements of all `trials` in order where each counts for one,
/// the failure of the first that does not otherwise.
pub open spec fn collect_outcomes(trials: Seq<VerkleTrial>) -> Result<
    Seq<TrialMeasurement>,
    BenchFailure,
>
    decreases trials.len(),
{
    if trials.len() == 0 {
        Ok(Seq::empty())
    } else {
        match collect_outcomes(trials.drop_last()) {
            Err(failure) => Err(failure),
            Ok(measurements) => match trial_outcome(trials.last()) {
                Err(failure) => Err(failure),
                Ok(measurement) => Ok(measurements.push(measurement)),
            },
        }
    }
}

impl VerkleTrial {
    /// What the trial counts for.
    pub fn measurement(&self) -> (outcome: Result<TrialMeasurement, BenchFailure>)
        ensures
            outcome == trial_outcome(*self),
    {
        match self {
            VerkleTrial::NoProof => Err(BenchFailure::ProofGeneration),
            VerkleTrial::Checked { proof_time, proof, verification_time, is_valid } => {
                if *is_valid {
                    Ok((*proof_time, *verification_time, proof.serialized_size()))
                } else {
                    Err(BenchFailure::InvalidProof)
                }
            },
        }
    }
}

/// Reduces the `NUM_RUNS` trials of one dataset size to its record.
///
/// The first trial without a valid proof fails the benchmark, and so do
/// measurements whose sums cannot be held. Otherwise the record averages the
/// measurements over the `NUM_RUNS` trials and is labelled with `total_keys`,
/// the number of leaves a trial proves out of that many, and the name `verkle`.
pub fn benchmark_verkle(total_keys: usize, trials: &Vec<VerkleTrial>) -> (report: Result<
    AggregateResult,
    BenchFailure,
>)
    requires
        trials@.len() == NUM_RUNS,
    ensures
        match collect_outcomes(trials@) {
            Err(failure) => report == Err::<AggregateResult, BenchFailure>(failure),
            Ok(measurements) => if totals_fit(measurements) {
                report matches Ok(record) && is_aggregate_of(
                    record,
                    measurements,
                    NUM_RUNS,
                    total_keys,
                    leaves_proved(total_keys as nat) as usize,
                    "verkle"@,
                )
            } else {
                report == Err::<AggregateResult, BenchFailure>(BenchFailure::Overflow)
            },
        },
{
    let mut results: Vec<TrialMeasurement> = Vec::new();
    let mut i: usize = 0;
    assert(trials@.take(0) =~= Seq::empty());
    while i < trials.len()
        invariant
            i <= trials.len(),
            collect_outcomes(trials@.take(i as int)) == Ok::<Seq<TrialMeasurement>, BenchFailure>(
                results@,
            ),
        decreases trials.len() - i,
    {
        proof {
            assert(trials@.take(i + 1).drop_last() =~= trials@.take(i as int));
            lemma_failure_stays(trials@, i + 1);
        }
        match trials[i].measurement() {
            Ok(measurement) => {
                results.push(measurement);
            },
            Err(failure) => {
                return Err(failure);
            },
        }
        i += 1;
    }
    assert(trials@.take(i as int) =~= trials@);
    if sum_measurements(&results).is_none() {
        return Err(BenchFailure::Overflow);
    }
    Ok(
        evaluate_benchmark_results(
            results,
            NUM_RUNS,
            total_keys,
            leaves_to_prove(total_keys),
            String::from_str("verkle"),
        ),
    )
}

/// A failure among the first `n` trials is the failure of the whole list.
pub proof fn lemma_failure_stays(trials: Seq<VerkleTrial>, n: int)
    requires
        0 <= n <= trials.len(),
    ensures
        collect_outcomes(trials.take(n)) matches Err(failure) ==> collect_outcomes(trials) == Err::<
            Seq<TrialMeasurement>,
            BenchFailure,
        >(failure),
    decreases trials.len(),
{
    if n == trials.len() {
        assert(trials.take(n) =~= trials);
    } else {
        assert(trials.drop_last().take(n) =~= trials.take(n));
        lemma_failure_stays(trials.drop_last(), n);
    }
}

} // verus!
