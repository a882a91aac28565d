//! Reduction of trial measurements to one averaged record, and its summary line.

use crate::measure::{
    lemma_total_is_order_independent, sum_measurements, total, totals_fit, Elapsed, Quantity,
    TrialMeasurement,
};
use crate::text::{decimal, elapsed_text, elapsed_to_string, usize_to_string};
use vstd::pervasive::unreached;
use vstd::prelude::*;
use vstd::string::StringExecFns;

verus! {

/// The averaged outcome of one benchmark configuration.
#[derive(Clone, Debug, PartialEq, Eq)]
pub struct AggregateResult {
    /// Name of the benchmark.
    pub name: String,
    /// Number of keys in the dataset.
    pub total_keys: usize,
    /// Number of leaves proved in each trial.
    pub leaves_to_prove: usize,
    /// Number of trials.
    pub num_runs: usize,
    /// Sum of the proof durations divided by the number of trials.
    pub average_proof_time: Elapsed,
    /// Sum of the verification durations divided by the number of trials.
    pub average_verification_time: Elapsed,
    /// Sum of the proof sizes divided by the number of trials.
    pub average_size: usize,
}

/// The sum of quantity `q` over `results` divided by `num_runs`, rounded down.
pub open spec fn average(results: Seq<TrialMeasurement>, q: Quantity, num_runs: nat) -> nat
    recommends
        num_runs > 0,
{
    total(results, q) / num_runs
}

/// Whether `record` is the aggregate of `results` under the given labels:
/// the labels are carried over and each average is the sum over `results`
/// divided by `num_runs`, rounded down.
pub open spec fn is_aggregate_of(
    record: AggregateResult,
    results: Seq<TrialMeasurement>,
    num_runs: usize,
    total_keys: usize,
    leaves_to_prove: usize,
    name: Seq<char>,
) -> bool {
    &&& record.name@ == name
    &&& record.total_keys == total_keys
    &&& record.leaves_to_prove == leaves_to_prove
    &&& record.num_runs == num_runs
    &&& record.average_proof_time@ == average(results, Quantity::ProofTime, num_runs as nat)
    &&& record.average_verification_time@ == average(
        results,
        Quantity::VerificationTime,
        num_runs as nat,
    )
    &&& record.average_size == average(results, Quantity::ProofSize, num_runs as nat)
}

/// Averages the measurements of `num_runs` trials into one record.
///
/// The three sums are divided by `num_runs`, whatever the number of
/// measurements, and rounded down: durations to a whole nanosecond, sizes to
/// a whole byte.
pub fn evaluate_benchmark_results(
    results: Vec<TrialMeasurement>,
    num_runs: usize,
    total_keys: usize,
    leaves_to_prove: usize,
    name: String,
) -> (record: AggregateResult)
    requires
        num_runs > 0,
        totals_fit(results@),
    ensures
        is_aggregate_of(record, results@, num_runs, total_keys, leaves_to_prove, name@),
{
    match sum_measurements(&results) {
        Some(sums) => AggregateResult {
            name,
            total_keys,
            leaves_to_prove,
            num_runs,
            average_proof_time: sums.0.div_by(num_runs),
            average_verification_time: sums.1.div_by(num_runs),
            average_size: sums.2 / num_runs,
        },
        None => unreached(),
    }
}

/// The averages do not depend on the order in which the trials came in.
pub proof fn lemma_average_is_order_independent(
    results: Seq<TrialMeasurement>,
    reordered: Seq<TrialMeasurement>,
    q: Quantity,
    num_runs: nat,
)
    requires
        results.to_multiset() == reordered.to_multiset(),
    ensures
        average(results, q, num_runs) == average(reordered, q, num_runs),
{
    lemma_total_is_order_independent(results, reordered, q);
}

/// The line that reports a record to a reader.
pub open spec fn summary_text(
    total_keys: nat,
    average_proof_nanos: nat,
    average_size: nat,
    average_verification_nanos: nat,
    num_runs: nat,
    leaves_to_prove: nat,
) -> Seq<char> {
    "Average time for "@ + decimal(total_keys) + " keys: "@ + elapsed_text(average_proof_nanos)
        + ", Average proof size: "@ + decimal(average_size)
        + " bytes, Average verification time: "@ + elapsed_text(average_verification_nanos)
        + ", Number of runs "@ + decimal(num_runs) + ", Leaves to prove "@ + decimal(
        leaves_to_prove,
    )
}

impl AggregateResult {
    /// The human-readable summary of the record.
    pub fn summary_line(&self) -> (line: String)
        ensures
            line@ == summary_text(
                self.total_keys as nat,
                self.average_proof_time@,
                self.average_size as nat,
                self.average_verification_time@,
                self.num_runs as nat,
                self.leaves_to_prove as nat,
            ),
    {
        let mut line = String::from_str("Average time for ");
        line.append(usize_to_string(self.total_keys).as_str());
        line.append(" keys: ");
        line.append(elapsed_to_string(self.average_proof_time).as_str());
        line.append(", Average proof size: ");
        line.append(usize_to_string(self.average_size).as_str());
        line.append(" bytes, Average verification time: ");
        line.append(elapsed_to_string(self.average_verification_time).as_str());
        line.append(", Number of runs ");
        line.append(usize_to_string(self.num_runs).as_str());
        line.append(", Leaves to prove ");
        line.append(usize_to_string(self.leaves_to_prove).as_str());
        line
    }
}

} // verus!
