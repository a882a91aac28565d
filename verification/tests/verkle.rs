use proof_bench::generator::BasicPRNG;
use proof_bench::measure::Elapsed;
use proof_bench::size::{Element, ExtPresent, MultiPointProof, Size, VerificationHint, VerkleProof};
use proof_bench::trial::{leaves_to_prove, BenchFailure, NUMBER_OF_LEAVES_TO_PROVE, NUM_RUNS};
use proof_bench::verkle::{
    benchmark_verkle, expected_values, generate_dataset, key_values, proof_keys,
    verkle_dataset_sizes, VerkleTrial,
};

fn stand_in_proof(keys: usize) -> VerkleProof {
    let hint = VerificationHint::new(
        vec![2u8; keys],
        vec![ExtPresent::Present; keys],
        Vec::new(),
    )
    .unwrap();
    VerkleProof::new(
        hint,
        vec![Element { bytes: [5u8; 32] }; keys + 1],
        MultiPointProof { open_proof: vec![0u8; 544] },
    )
    .unwrap()
}

fn checked(
    proof_millis: u128,
    verification_millis: u128,
    keys: usize,
    is_valid: bool,
) -> VerkleTrial {
    VerkleTrial::Checked {
        proof_time: Elapsed::from_nanos(proof_millis * 1_000_000).unwrap(),
        proof: stand_in_proof(keys),
        verification_time: Elapsed::from_nanos(verification_millis * 1_000_000).unwrap(),
        is_valid,
    }
}

#[test]
fn the_plan_is_ten_trials_of_five_thousand_leaves() {
    assert_eq!(NUM_RUNS, 10);
    assert_eq!(NUMBER_OF_LEAVES_TO_PROVE, 5000);
    assert_eq!(
        verkle_dataset_sizes(),
        vec![16_384, 65_536, 262_144, 1_048_576, 4_194_304, 16_777_216]
    );
}

#[test]
fn dataset_is_the_first_draws_of_the_zero_seed() {
    let keys = generate_dataset(300);
    assert_eq!(keys.len(), 300);
    assert_eq!(keys, BasicPRNG::new([0u8; 32]).rand_vec_bytes(300));
    assert_eq!(keys[..100], generate_dataset(100)[..]);
}

#[test]
fn every_key_stands_for_its_own_value() {
    let keys = generate_dataset(20);
    let pairs = key_values(&keys);
    assert_eq!(pairs.len(), 20);
    for (key, pair) in keys.iter().zip(pairs.iter()) {
        assert_eq!(pair, &(*key, *key));
    }
    assert!(key_values(&Vec::new()).is_empty());
}

#[test]
fn trials_prove_the_first_five_thousand_keys() {
    let keys = generate_dataset(16_384);
    let chosen = proof_keys(&keys);
    assert_eq!(chosen.len(), 5000);
    assert_eq!(chosen[..], keys[..5000]);
}

#[test]
fn trials_prove_all_keys_of_a_small_dataset() {
    let keys = generate_dataset(12);
    assert_eq!(proof_keys(&keys), keys);
    let exact = generate_dataset(5000);
    assert_eq!(proof_keys(&exact), exact);
    assert!(proof_keys(&Vec::new()).is_empty());
}

#[test]
fn each_proved_key_is_expected_with_itself_as_value() {
    let chosen = proof_keys(&generate_dataset(7));
    let values = expected_values(&chosen);
    assert_eq!(values.len(), 7);
    for (key, value) in chosen.iter().zip(values.iter()) {
        assert_eq!(value, &Some(*key));
    }
}

#[test]
fn valid_trial_counts_with_its_times_and_the_size_of_its_proof() {
    let trial = checked(40, 8, 3, true);
    let size = stand_in_proof(3).serialized_size();
    assert_eq!(
        trial.measurement(),
        Ok((
            Elapsed::from_nanos(40_000_000).unwrap(),
            Elapsed::from_nanos(8_000_000).unwrap(),
            size
        ))
    );
}

#[test]
fn trial_without_a_valid_proof_is_a_failure() {
    assert_eq!(checked(40, 8, 3, false).measurement(), Err(BenchFailure::InvalidProof));
    assert_eq!(VerkleTrial::NoProof.measurement(), Err(BenchFailure::ProofGeneration));
}

#[test]
fn ten_valid_trials_over_the_smallest_dataset_give_its_row() {
    let keys = generate_dataset(16_384);
    let chosen = proof_keys(&keys);
    assert_eq!(chosen.len(), 5000);
    let mut trials = Vec::new();
    for run in 0..NUM_RUNS {
        trials.push(checked(100 + run as u128, 20, chosen.len(), true));
    }
    for trial in trials.iter() {
        let measurement = trial.measurement().unwrap();
        assert!(measurement.2 > 0);
    }
    let size = stand_in_proof(5000).serialized_size();
    let record = benchmark_verkle(keys.len(), &trials).unwrap();
    assert_eq!(record.name, "verkle");
    assert_eq!(record.total_keys, 16_384);
    assert_eq!(record.num_runs, 10);
    assert_eq!(record.leaves_to_prove, 5000);
    assert_eq!(record.average_size, size);
    assert_eq!(record.average_proof_time, Elapsed::from_nanos(104_500_000).unwrap());
    assert_eq!(record.average_verification_time, Elapsed::from_nanos(20_000_000).unwrap());
    let row = String::from_utf8(record.csv_bytes(true, Some(1))).unwrap();
    let fields: Vec<&str> = row.trim_end().split(',').collect();
    assert_eq!(fields[0], "verkle");
    assert_eq!(fields[1], "16384");
    assert_eq!(fields[5], "10");
    assert_eq!(fields[6], "5000");
}

fn valid_trials(count: usize) -> Vec<VerkleTrial> {
    (0..count).map(|_| checked(1, 1, 2, true)).collect()
}

#[test]
fn first_failing_trial_fails_the_benchmark() {
    let mut trials = valid_trials(10);
    trials[3] = checked(1, 1, 2, false);
    trials[7] = VerkleTrial::NoProof;
    assert_eq!(benchmark_verkle(64, &trials), Err(BenchFailure::InvalidProof));
    let mut trials = valid_trials(10);
    trials[0] = VerkleTrial::NoProof;
    trials[1] = checked(1, 1, 2, false);
    assert_eq!(benchmark_verkle(64, &trials), Err(BenchFailure::ProofGeneration));
    let mut trials = valid_trials(10);
    trials[9] = checked(1, 1, 2, false);
    assert_eq!(benchmark_verkle(64, &trials), Err(BenchFailure::InvalidProof));
}

#[test]
fn times_beyond_the_range_fail_the_benchmark() {
    let longest = Elapsed::new(u64::MAX, 999_999_999).unwrap();
    let mut trials = valid_trials(10);
    trials[4] = VerkleTrial::Checked {
        proof_time: longest,
        proof: stand_in_proof(1),
        verification_time: Elapsed::zero(),
        is_valid: true,
    };
    assert_eq!(benchmark_verkle(64, &trials), Err(BenchFailure::Overflow));
}

#[test]
fn averages_are_the_sums_over_the_ten_trials_divided_by_ten() {
    let mut trials = Vec::new();
    for run in 0..10u128 {
        trials.push(checked(10 * run, 7, 1 + run as usize, true));
    }
    let sizes: usize = (0..10).map(|run| stand_in_proof(1 + run).serialized_size()).sum();
    let record = benchmark_verkle(16, &trials).unwrap();
    assert_eq!(record.num_runs, 10);
    assert_eq!(record.average_proof_time, Elapsed::from_nanos(45_000_000).unwrap());
    assert_eq!(record.average_verification_time, Elapsed::from_nanos(7_000_000).unwrap());
    assert_eq!(record.average_size, sizes / 10);
}

#[test]
fn record_of_a_small_dataset_names_the_leaves_it_has() {
    let record = benchmark_verkle(12, &valid_trials(10)).unwrap();
    assert_eq!(record.total_keys, 12);
    assert_eq!(record.leaves_to_prove, 12);
    let record = benchmark_verkle(5000, &valid_trials(10)).unwrap();
    assert_eq!(record.leaves_to_prove, 5000);
    let record = benchmark_verkle(5001, &valid_trials(10)).unwrap();
    assert_eq!(record.leaves_to_prove, 5000);
    let record = benchmark_verkle(0, &valid_trials(10)).unwrap();
    assert_eq!(record.leaves_to_prove, 0);
}

#[test]
fn a_trial_proves_all_leaves_up_to_five_thousand() {
    assert_eq!(leaves_to_prove(0), 0);
    assert_eq!(leaves_to_prove(64), 64);
    assert_eq!(leaves_to_prove(4999), 4999);
    assert_eq!(leaves_to_prove(5000), 5000);
    assert_eq!(leaves_to_prove(16_384), 5000);
    assert_eq!(leaves_to_prove(usize::MAX), 5000);
}
