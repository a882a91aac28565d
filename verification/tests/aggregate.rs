use proof_bench::aggregate::evaluate_benchmark_results;
use proof_bench::measure::Elapsed;
use proof_bench::text::{elapsed_to_string, usize_to_string};

#[test]
fn two_trials_average_to_two_seconds_and_twenty_bytes() {
    let results = vec![
        (Elapsed::from_secs(1), Elapsed::from_secs(1), 10),
        (Elapsed::from_secs(3), Elapsed::from_secs(3), 30),
    ];
    let record = evaluate_benchmark_results(results, 2, 16384, 5000, "verkle".to_string());
    assert_eq!(record.average_proof_time, Elapsed::from_secs(2));
    assert_eq!(record.average_verification_time, Elapsed::from_secs(2));
    assert_eq!(record.average_size, 20);
    assert_eq!(record.name, "verkle");
    assert_eq!(record.total_keys, 16384);
    assert_eq!(record.leaves_to_prove, 5000);
    assert_eq!(record.num_runs, 2);
}

#[test]
fn averages_divide_by_the_trial_count_and_round_down() {
    let results = vec![
        (Elapsed::from_nanos(10).unwrap(), Elapsed::from_nanos(7).unwrap(), 5),
        (Elapsed::from_nanos(11).unwrap(), Elapsed::from_nanos(1).unwrap(), 6),
    ];
    let record = evaluate_benchmark_results(results, 4, 1, 1, "binary".to_string());
    assert_eq!(record.average_proof_time, Elapsed::from_nanos(5).unwrap());
    assert_eq!(record.average_verification_time, Elapsed::from_nanos(2).unwrap());
    assert_eq!(record.average_size, 2);
    assert_eq!(record.num_runs, 4);
}

#[test]
fn averages_do_not_depend_on_the_order_of_the_trials() {
    let a = (Elapsed::from_nanos(5).unwrap(), Elapsed::from_secs(9), 17);
    let b = (Elapsed::from_secs(2), Elapsed::from_nanos(3).unwrap(), 4);
    let c = (Elapsed::new(1, 1).unwrap(), Elapsed::new(0, 77).unwrap(), 1000);
    let forward = evaluate_benchmark_results(vec![a, b, c], 3, 8, 2, "verkle".to_string());
    let backward = evaluate_benchmark_results(vec![c, b, a], 3, 8, 2, "verkle".to_string());
    assert_eq!(forward, backward);
}

#[test]
fn no_measurements_average_to_zero() {
    let record = evaluate_benchmark_results(Vec::new(), 10, 64, 5000, "binary".to_string());
    assert_eq!(record.average_proof_time, Elapsed::zero());
    assert_eq!(record.average_verification_time, Elapsed::zero());
    assert_eq!(record.average_size, 0);
}

#[test]
fn summary_line_names_every_quantity() {
    let results = vec![
        (Elapsed::from_secs(1), Elapsed::from_nanos(1_000_000).unwrap(), 10),
        (Elapsed::from_secs(3), Elapsed::from_nanos(3_000_000).unwrap(), 30),
    ];
    let record = evaluate_benchmark_results(results, 2, 16384, 5000, "verkle".to_string());
    assert_eq!(
        record.summary_line(),
        "Average time for 16384 keys: 2s, Average proof size: 20 bytes, \
         Average verification time: 2ms, Number of runs 2, Leaves to prove 5000"
    );
}

#[test]
fn numbers_are_written_in_decimal() {
    assert_eq!(usize_to_string(0), "0");
    assert_eq!(usize_to_string(7), "7");
    assert_eq!(usize_to_string(10), "10");
    assert_eq!(usize_to_string(16384), "16384");
    assert_eq!(usize_to_string(1_000_000), "1000000");
    assert_eq!(usize_to_string(usize::MAX), usize::MAX.to_string());
}

#[test]
fn time_spans_are_written_as_durations_are() {
    assert_eq!(elapsed_to_string(Elapsed::zero()), "0ns");
    assert_eq!(elapsed_to_string(Elapsed::from_secs(2)), "2s");
    assert_eq!(elapsed_to_string(Elapsed::new(1, 500_000_000).unwrap()), "1.5s");
    assert_eq!(elapsed_to_string(Elapsed::from_nanos(64_000_000).unwrap()), "64ms");
    assert_eq!(elapsed_to_string(Elapsed::from_nanos(1_500).unwrap()), "1.5µs");
    assert_eq!(elapsed_to_string(Elapsed::from_nanos(42).unwrap()), "42ns");
    let span = Elapsed::new(12, 345_678_901).unwrap();
    assert_eq!(
        elapsed_to_string(span),
        format!("{:?}", std::time::Duration::new(12, 345_678_901))
    );
}
