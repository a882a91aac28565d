//! Decisions of the benchmark of the hash tree with an opening circuit:
//! which leaves a trial proves and in what order, how a trial's totals grow
//! leaf by leaf, and when the benchmark reports or stops.

use crate::aggregate::{evaluate_benchmark_results, is_aggregate_of, AggregateResult};
use crate::measure::{
    add_measurements, is_sum, is_zero, sum_fits, sum_measurements, totals_fit, zero_measurement,
    Elapsed, TrialMeasurement,
};
use crate::tree::{
    generate_binary_keys, generate_binary_tree, is_digest_key, key_views, leaves_of, seeded_rng,
    tree_leaves, HashTree,
};
use crate::trial::{
    leaves_proved, leaves_to_prove, BenchFailure, NUMBER_OF_LEAVES_TO_PROVE, NUM_RUNS,
};
use rand::seq::SliceRandom;
use vstd::pervasive::unreached;
use vstd::prelude::*;
use vstd::set_lib::{lemma_int_range, lemma_len_subset, lemma_subset_equality, set_int_range};
use vstd::string::StringExecFns;

verus! {

/// Number of leaves in the hash tree.
pub const NUM_KEYS: usize = 64;

/// Seed of the generator the keys are drawn from.
pub const KEY_SEED: u64 = 0xdea1;

/// Binary logarithm of the largest number of gates a circuit may have.
pub const CAPACITY: usize = 14;

/// Whether `chosen` lists the items of `items` at the places `picks`, which
/// are all different.
pub open spec fn picks_from(picks: Seq<int>, chosen: Seq<usize>, items: Seq<usize>) -> bool {
    &&& picks.len() == chosen.len()
    &&& forall|k: int|
        0 <= k < chosen.len() ==> 0 <= #[trigger] picks[k] < items.len() && chosen[k]
            == items[picks[k]]
    &&& forall|j: int, k: int|
        0 <= j < k < chosen.len() ==> #[trigger] picks[j] != #[trigger] picks[k]
}

/// Whether `chosen` holds items of `items` taken from places that are all different.
pub open spec fn is_selection_of(chosen: Seq<usize>, items: Seq<usize>) -> bool {
    exists|picks: Seq<int>| picks_from(picks, chosen, items)
}

/// Whether `sample` is a sample of the positions of `num_keys` leaves:
/// as many as a trial proves, each a position of the tree, none twice.
pub open spec fn is_valid_sample(sample: Seq<usize>, num_keys: usize) -> bool {
    &&& sample.len() == leaves_proved(num_keys as nat)
    &&& forall|i: int| 0 <= i < sample.len() ==> #[trigger] sample[i] < num_keys
    &&& forall|i: int, j: int|
        0 <= i < j < sample.len() ==> #[trigger] sample[i] != #[trigger] sample[j]
}

/// Where the tree has no more leaves than a trial proves, a trial proves
/// every leaf.
pub proof fn lemma_sample_of_small_tree_is_every_position(sample: Seq<usize>, num_keys: usize)
    requires
        is_valid_sample(sample, num_keys),
        num_keys <= NUMBER_OF_LEAVES_TO_PROVE,
    ensures
        forall|position: usize| position < num_keys ==> sample.contains(position),
{
    let places = Seq::new(sample.len(), |k: int| sample[k] as int);
    let all = set_int_range(0, num_keys as int);
    assert(places.no_duplicates());
    places.unique_seq_to_set();
    lemma_int_range(0, num_keys as int);
    assert(places.to_set().subset_of(all)) by {
        assert forall|p: int| places.to_set().contains(p) implies all.contains(p) by {
            let k = choose|k: int| 0 <= k < places.len() && places[k] == p;
            assert(sample[k] < num_keys);
        }
    }
    lemma_len_subset(places.to_set(), all);
    lemma_subset_equality(places.to_set(), all);
    assert forall|position: usize| position < num_keys implies sample.contains(position) by {
        assert(all.contains(position as int));
        assert(places.to_set().contains(position as int));
        let k = choose|k: int| 0 <= k < places.len() && places[k] == position as int;
        assert(sample[k] == position);
    }
}

/// Takes `amount` items of `items`, or all where there are fewer, with
/// `rand::seq::SliceRandom::choose_multiple` and the thread's generator.
/// Trusted: the items come from different places of `items`, as many as
/// asked for or as there are; which ones, and in what order, is left to chance.
#[verifier::external_body]
fn choose_positions(items: &Vec<usize>, amount: usize) -> (chosen: Vec<usize>)
    ensures
        chosen@.len() == if amount < items@.len() { amount as nat } else { items@.len() },
        is_selection_of(chosen@, items@),
{
    items.choose_multiple(&mut rand::thread_rng(), amount).cloned().collect()
}

/// Samples the positions a trial proves, in the order in which it proves them.
pub fn sample_positions(num_keys: usize) -> (sample: Vec<usize>)
    ensures
        is_valid_sample(sample@, num_keys),
{
    let mut positions: Vec<usize> = Vec::new();
    let mut i: usize = 0;
    while i < num_keys
        invariant
            i <= num_keys,
            positions.len() == i,
            forall|k: int| 0 <= k < i ==> #[trigger] positions[k] == k,
        decreases num_keys - i,
    {
        positions.push(i);
        i += 1;
    }
    let sample = choose_positions(&positions, NUMBER_OF_LEAVES_TO_PROVE);
    proof {
        let picks = choose|picks: Seq<int>| picks_from(picks, sample@, positions@);
        assert forall|k: int| 0 <= k < sample.len() implies #[trigger] sample[k] == picks[k] by {
            assert(0 <= picks[k] < positions.len());
        }
    }
    sample
}

/// What came of proving and verifying the opening of one leaf.
#[derive(Clone, Copy, Debug, PartialEq, Eq)]
pub enum LeafEvent {
    /// The proof was produced in `proving_time`, circuit compilation
    /// included, and verified in `verification_time`; it has `proof_size` bytes.
    Proved { proving_time: Elapsed, verification_time: Elapsed, proof_size: usize },
    /// The circuit did not compile.
    CompilationFailed,
    /// The tree gave no opening for the leaf.
    OpeningMissing,
    /// No proof could be produced.
    ProofFailed,
    /// The proof did not verify.
    VerificationFailed,
}

/// What a leaf's event adds to the totals of its trial, or the failure it stands for.
pub open spec fn leaf_outcome(event: LeafEvent) -> Result<TrialMeasurement, BenchFailure> {
    match event {
        LeafEvent::Proved { proving_time, verification_time, proof_size } => Ok(
            (proving_time, verification_time, proof_size),
        ),
        LeafEvent::CompilationFailed => Err(BenchFailure::Compilation),
        LeafEvent::OpeningMissing => Err(BenchFailure::MissingOpening),
        LeafEvent::ProofFailed => Err(BenchFailure::ProofGeneration),
        LeafEvent::VerificationFailed => Err(BenchFailure::InvalidProof),
    }
}

/// The benchmark between two leaves: it waits for the event of the leaf it
/// asked for last.
#[derive(Debug)]
pub struct BinaryBenchmark {
    num_keys: usize,
    finished: Vec<TrialMeasurement>,
    sample: Vec<usize>,
    next: usize,
    totals: TrialMeasurement,
}

/// What the benchmark asks for next.
#[derive(Debug)]
pub enum BinaryStep {
    /// Prove and verify the opening of the leaf at `position`, and hand the
    /// event to `driver`.
    ProveLeaf { driver: BinaryBenchmark, position: usize },
    /// All trials are done: report the record.
    Report(AggregateResult),
    /// The benchmark cannot go on.
    Abort(BenchFailure),
}

/// Whether `step` starts a trial after the trials in `finished`: it asks for
/// the first leaf of a fresh sample, with totals of zero.
pub open spec fn starts_trial(
    step: BinaryStep,
    num_keys: usize,
    finished: Seq<TrialMeasurement>,
) -> bool {
    &&& step matches BinaryStep::ProveLeaf { driver, position }
    &&& driver.num_keys() == num_keys
    &&& driver.finished() == finished
    &&& is_valid_sample(driver.sample(), num_keys)
    &&& driver.next() == 0
    &&& is_zero(driver.totals())
    &&& position == driver.sample()[0]
}

/// Whether `step` ends the benchmark after the trials in `finished`: it
/// reports their aggregate, labelled with the number of leaves a trial
/// proves in a tree of `num_keys` leaves, or stops where their sums cannot
/// be held.
pub open spec fn ends_benchmark(
    step: BinaryStep,
    num_keys: usize,
    finished: Seq<TrialMeasurement>,
) -> bool {
    if totals_fit(finished) {
        step matches BinaryStep::Report(record) && is_aggregate_of(
            record,
            finished,
            NUM_RUNS,
            num_keys,
            leaves_proved(num_keys as nat) as usize,
            "binary"@,
        )
    } else {
        step == BinaryStep::Abort(BenchFailure::Overflow)
    }
}

/// Whether `step` is what follows when `event` comes in while the benchmark
/// is at `before`.
///
/// A failed leaf stops the benchmark with its failure, and so do totals that
/// cannot be held. Otherwise the leaf is added to the totals of the trial.
/// If the sample has more leaves, the next one is asked for. If not, the
/// trial is done with these totals: the next trial starts, or after the last
/// one the benchmark ends.
pub open spec fn follows(before: BinaryBenchmark, event: LeafEvent, step: BinaryStep) -> bool {
    match leaf_outcome(event) {
        Err(failure) => step == BinaryStep::Abort(failure),
        Ok(leaf) => if !sum_fits(before.totals(), leaf) {
            step == BinaryStep::Abort(BenchFailure::Overflow)
        } else if before.next() + 1 < before.sample().len() {
            &&& step matches BinaryStep::ProveLeaf { driver, position }
            &&& driver.num_keys() == before.num_keys()
            &&& driver.finished() == before.finished()
            &&& driver.sample() == before.sample()
            &&& driver.next() == before.next() + 1
            &&& is_sum(driver.totals(), before.totals(), leaf)
            &&& position == before.sample()[before.next() + 1]
        } else {
            exists|totals: TrialMeasurement|
                {
                    &&& is_sum(totals, before.totals(), leaf)
                    &&& if before.finished().len() + 1 < NUM_RUNS {
                        starts_trial(
                            step,
                            before.num_keys(),
                            #[trigger] before.finished().push(totals),
                        )
                    } else {
                        ends_benchmark(step, before.num_keys(), before.finished().push(totals))
                    }
                }
        },
    }
}

/// The measurements of `count` trials that proved nothing.
pub open spec fn idle_trials(results: Seq<TrialMeasurement>, count: nat) -> bool {
    &&& results.len() == count
    &&& forall|i: int| 0 <= i < count ==> is_zero(#[trigger] results[i])
}

impl BinaryBenchmark {
    #[verifier::type_invariant]
    spec fn awaits_a_leaf(self) -> bool {
        &&& self.finished@.len() < NUM_RUNS
        &&& is_valid_sample(self.sample@, self.num_keys)
        &&& self.next < self.sample@.len()
    }

    /// Number of leaves in the tree.
    pub closed spec fn num_keys(&self) -> usize {
        self.num_keys
    }

    /// The totals of the trials that are done, in order.
    pub closed spec fn finished(&self) -> Seq<TrialMeasurement> {
        self.finished@
    }

    /// The positions the current trial proves, in order.
    pub closed spec fn sample(&self) -> Seq<usize> {
        self.sample@
    }

    /// The place in the sample of the leaf whose event is awaited.
    pub closed spec fn next(&self) -> int {
        self.next as int
    }

    /// The totals of the current trial over the leaves before the awaited one.
    pub closed spec fn totals(&self) -> TrialMeasurement {
        self.totals
    }

    /// Number of trials that are done.
    pub fn trials_done(&self) -> (done: usize)
        ensures
            done == self.finished().len(),
            done < NUM_RUNS,
    {
        proof {
            use_type_invariant(self);
        }
        self.finished.len()
    }

    /// Number of leaves of the current trial whose events have come in.
    pub fn leaves_done(&self) -> (done: usize)
        ensures
            done == self.next(),
            done < self.sample().len(),
    {
        proof {
            use_type_invariant(self);
        }
        self.next
    }

    /// Starts the trial that follows the trials in `finished`.
    fn start_trial(num_keys: usize, finished: Vec<TrialMeasurement>) -> (step: BinaryStep)
        requires
            num_keys > 0,
            finished@.len() < NUM_RUNS,
        ensures
            starts_trial(step, num_keys, finished@),
    {
        let sample = sample_positions(num_keys);
        let position = sample[0];
        BinaryStep::ProveLeaf {
            driver: BinaryBenchmark {
                num_keys,
                finished,
                sample,
                next: 0,
                totals: zero_measurement(),
            },
            position,
        }
    }

    /// Ends the benchmark with the trials in `finished`.
    fn end_benchmark(num_keys: usize, finished: Vec<TrialMeasurement>) -> (step: BinaryStep)
        ensures
            ends_benchmark(step, num_keys, finished@),
    {
        if sum_measurements(&finished).is_none() {
            BinaryStep::Abort(BenchFailure::Overflow)
        } else {
            BinaryStep::Report(
                evaluate_benchmark_results(
                    finished,
                    NUM_RUNS,
                    num_keys,
                    leaves_to_prove(num_keys),
                    String::from_str("binary"),
                ),
            )
        }
    }

    /// Takes the event of the leaf that was asked for and says what is next.
    pub fn advance(self, event: LeafEvent) -> (step: BinaryStep)
        ensures
            follows(self, event, step),
    {
        proof {
            use_type_invariant(&self);
        }
        let ghost before = self;
        let BinaryBenchmark { num_keys, finished, sample, next, totals } = self;
        let leaf: TrialMeasurement = match event {
            LeafEvent::Proved { proving_time, verification_time, proof_size } => (
                proving_time,
                verification_time,
                proof_size,
            ),
            LeafEvent::CompilationFailed => {
                return BinaryStep::Abort(BenchFailure::Compilation);
            },
            LeafEvent::OpeningMissing => {
                return BinaryStep::Abort(BenchFailure::MissingOpening);
            },
            LeafEvent::ProofFailed => {
                return BinaryStep::Abort(BenchFailure::ProofGeneration);
            },
            LeafEvent::VerificationFailed => {
                return BinaryStep::Abort(BenchFailure::InvalidProof);
            },
        };
        let sums = match add_measurements(totals, leaf) {
            Some(sums) => sums,
            None => {
                return BinaryStep::Abort(BenchFailure::Overflow);
            },
        };
        if next + 1 < sample.len() {
            let position = sample[next + 1];
            BinaryStep::ProveLeaf {
                driver: BinaryBenchmark {
                    num_keys,
                    finished,
                    sample,
                    next: next + 1,
                    totals: sums,
                },
                position,
            }
        } else {
            let mut finished = finished;
            finished.push(sums);
            let step = if finished.len() < NUM_RUNS {
                BinaryBenchmark::start_trial(num_keys, finished)
            } else {
                BinaryBenchmark::end_benchmark(num_keys, finished)
            };
            proof {
                assert(before.finished().push(sums) == before.finished().push(sums));
            }
            step
        }
    }
}

/// Starts the benchmark over a tree of `num_keys` leaves.
///
/// With leaves to prove, the first trial starts. Without any, every trial
/// is idle and the benchmark ends at once.
pub fn benchmark_binary(num_keys: usize) -> (step: BinaryStep)
    ensures
        num_keys > 0 ==> starts_trial(step, num_keys, Seq::empty()),
        num_keys == 0 ==> exists|idle: Seq<TrialMeasurement>|
            #[trigger] idle_trials(idle, NUM_RUNS as nat) && ends_benchmark(step, num_keys, idle),
{
    if num_keys > 0 {
        BinaryBenchmark::start_trial(num_keys, Vec::new())
    } else {
        let mut idle: Vec<TrialMeasurement> = Vec::new();
        let mut run: usize = 0;
        while run < NUM_RUNS
            invariant
                run <= NUM_RUNS,
                idle_trials(idle@, run as nat),
            decreases NUM_RUNS - run,
        {
            idle.push(zero_measurement());
            run += 1;
        }
        let ghost trials = idle@;
        let step = BinaryBenchmark::end_benchmark(num_keys, idle);
        assert(idle_trials(trials, NUM_RUNS as nat) && ends_benchmark(step, num_keys, trials));
        step
    }
}

/// Makes the keys of the benchmark and the tree that holds them: `NUM_KEYS`
/// keys drawn from the generator seeded with `KEY_SEED`, each at the
/// position of its index.
pub fn generate_binary_dataset() -> (dataset: (Vec<[u8; 32]>, HashTree))
    ensures
        dataset.0.len() == NUM_KEYS,
        forall|i: int| 0 <= i < NUM_KEYS ==> is_digest_key(#[trigger] key_views(dataset.0@)[i]),
        tree_leaves(dataset.1) == leaves_of(key_views(dataset.0@)),
{
    let mut rng = seeded_rng(KEY_SEED);
    let keys = generate_binary_keys(&mut rng, NUM_KEYS);
    let mut copy: Vec<[u8; 32]> = Vec::new();
    let mut i: usize = 0;
    while i < keys.len()
        invariant
            i <= keys.len(),
            copy@ == keys@.take(i as int),
        decreases keys.len() - i,
    {
        copy.push(keys[i]);
        assert(keys@.take(i + 1) =~= keys@.take(i as int).push(keys@[i as int]));
        i += 1;
    }
    assert(copy@ =~= keys@);
    match generate_binary_tree(copy) {
        Ok(tree) => (keys, tree),
        Err(_) => unreached(),
    }
}

} // verus!
