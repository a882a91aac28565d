//! What the two benchmark drivers share: the trial plan and the ways a run can fail.

use vstd::prelude::*;

verus! {

/// Number of leaves a trial proves, where the tree has that many.
pub const NUMBER_OF_LEAVES_TO_PROVE: usize = 5000;

/// Number of trials per benchmark configuration.
pub const NUM_RUNS: usize = 10;

/// Why a benchmark run cannot go on. Each of these ends the run: no row is
/// written for a configuration in which one occurred.
#[derive(Clone, Copy, Debug, PartialEq, Eq)]
pub enum BenchFailure {
    /// The circuit did not compile.
    Compilation,
    /// The tree gave no opening for a position that was to be proved.
    MissingOpening,
    /// No proof could be produced.
    ProofGeneration,
    /// A proof did not verify.
    InvalidProof,
    /// The measurements add up to more than can be held.
    Overflow,
}

/// The number of leaves a trial proves out of `available`: all of them, up
/// to `NUMBER_OF_LEAVES_TO_PROVE`.
pub open spec fn leaves_proved(available: nat) -> nat {
    if available < NUMBER_OF_LEAVES_TO_PROVE {
        available
    } else {
        NUMBER_OF_LEAVES_TO_PROVE as nat
    }
}

/// The number of leaves a trial proves out of `available`.
pub fn leaves_to_prove(available: usize) -> (count: usize)
    ensures
        count == leaves_proved(available as nat),
{
    if available < NUMBER_OF_LEAVES_TO_PROVE {
        available
    } else {
        NUMBER_OF_LEAVES_TO_PROVE
    }
}

} // verus!
