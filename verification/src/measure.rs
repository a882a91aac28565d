//! Time spans and per-trial measurements, with their exact sums.

use vstd::pervasive::unreached;
use vstd::prelude::*;

verus! {

/// Nanoseconds in one second.
pub const NANOS_PER_SEC: u32 = 1_000_000_000;

/// The longest span an [`Elapsed`] can hold, in nanoseconds:
/// `u64::MAX` whole seconds and one nanosecond short of another.
pub open spec fn max_nanos() -> nat {
    (u64::MAX as nat) * 1_000_000_000 + 999_999_999
}

/// A span of time with nanosecond resolution, held as whole seconds and the
/// nanoseconds below one second. Its view is the span in nanoseconds.
#[derive(Clone, Copy, Debug, PartialEq, Eq)]
pub struct Elapsed {
    secs: u64,
    nanos: u32,
}

impl View for Elapsed {
    type V = nat;

    closed spec fn view(&self) -> nat {
        (self.secs as nat) * 1_000_000_000 + self.nanos as nat
    }
}

impl Elapsed {
    #[verifier::type_invariant]
    spec fn subsecond_part_in_range(self) -> bool {
        self.nanos < NANOS_PER_SEC
    }

    /// The empty span.
    pub fn zero() -> (e: Elapsed)
        ensures
            e@ == 0,
    {
        Elapsed { secs: 0, nanos: 0 }
    }

    /// The span of `secs` seconds and `nanos` nanoseconds. Nanoseconds beyond
    /// one second carry over into the seconds; `None` when the span is longer
    /// than any `Elapsed`.
    pub fn new(secs: u64, nanos: u32) -> (e: Option<Elapsed>)
        ensures
            e is Some <==> (secs as nat) * 1_000_000_000 + nanos as nat <= max_nanos(),
            e is Some ==> e->0@ == (secs as nat) * 1_000_000_000 + nanos as nat,
    {
        let carry: u64 = (nanos / NANOS_PER_SEC) as u64;
        let rest: u32 = nanos % NANOS_PER_SEC;
        match secs.checked_add(carry) {
            Some(whole) => Some(Elapsed { secs: whole, nanos: rest }),
            None => None,
        }
    }

    /// The span of `secs` whole seconds.
    pub fn from_secs(secs: u64) -> (e: Elapsed)
        ensures
            e@ == (secs as nat) * 1_000_000_000,
    {
        Elapsed { secs, nanos: 0 }
    }

    /// The span of `total` nanoseconds, `None` when it is longer than any `Elapsed`.
    pub fn from_nanos(total: u128) -> (e: Option<Elapsed>)
        ensures
            e is Some <==> total <= max_nanos(),
            e is Some ==> e->0@ == total,
    {
        let whole: u128 = total / 1_000_000_000u128;
        let rest: u128 = total % 1_000_000_000u128;
        if whole <= u64::MAX as u128 {
            Some(Elapsed { secs: whole as u64, nanos: rest as u32 })
        } else {
            None
        }
    }

    /// Whole seconds of the span.
    pub fn as_secs(&self) -> (secs: u64)
        ensures
            secs == self@ / 1_000_000_000,
    {
        proof {
            use_type_invariant(self);
        }
        self.secs
    }

    /// Nanoseconds of the span below one second.
    pub fn subsec_nanos(&self) -> (nanos: u32)
        ensures
            nanos == self@ % 1_000_000_000,
            nanos < NANOS_PER_SEC,
    {
        proof {
            use_type_invariant(self);
        }
        self.nanos
    }

    /// The span in nanoseconds.
    pub fn as_nanos(&self) -> (total: u128)
        ensures
            total == self@,
            total <= max_nanos(),
    {
        proof {
            use_type_invariant(self);
        }
        self.secs as u128 * 1_000_000_000u128 + self.nanos as u128
    }

    /// The sum of two spans, `None` when it is longer than any `Elapsed`.
    pub fn checked_add(self, other: Elapsed) -> (sum: Option<Elapsed>)
        ensures
            sum is Some <==> self@ + other@ <= max_nanos(),
            sum is Some ==> sum->0@ == self@ + other@,
    {
        let a: u128 = self.as_nanos();
        let b: u128 = other.as_nanos();
        Elapsed::from_nanos(a + b)
    }

    /// The span divided by `parts`, rounded down to a whole nanosecond.
    pub fn div_by(self, parts: usize) -> (share: Elapsed)
        requires
            parts > 0,
        ensures
            share@ == self@ / (parts as nat),
    {
        let total: u128 = self.as_nanos();
        let quotient: u128 = total / (parts as u128);
        assert(quotient <= total) by (nonlinear_arith)
            requires
                quotient == total / (parts as u128),
                parts > 0,
        ;
        match Elapsed::from_nanos(quotient) {
            Some(share) => share,
            None => unreached(),
        }
    }
}

/// What one trial measured: the time to produce the proof, the time to
/// verify it, and the proof's size in bytes.
pub type TrialMeasurement = (Elapsed, Elapsed, usize);

/// The three quantities of a trial measurement.
pub enum Quantity {
    ProofTime,
    VerificationTime,
    ProofSize,
}

/// The value of quantity `q` in measurement `m`: nanoseconds for the two
/// durations, bytes for the size.
pub open spec fn quantity(m: TrialMeasurement, q: Quantity) -> nat {
    match q {
        Quantity::ProofTime => m.0@,
        Quantity::VerificationTime => m.1@,
        Quantity::ProofSize => m.2 as nat,
    }
}

/// The sum of quantity `q` over all of `results`.
pub open spec fn total(results: Seq<TrialMeasurement>, q: Quantity) -> nat
    decreases results.len(),
{
    if results.len() == 0 {
        0
    } else {
        total(results.drop_last(), q) + quantity(results.last(), q)
    }
}

/// Whether the three sums over `results` can each be held: the durations in
/// an [`Elapsed`], the sizes in a `usize`.
pub open spec fn totals_fit(results: Seq<TrialMeasurement>) -> bool {
    &&& total(results, Quantity::ProofTime) <= max_nanos()
    &&& total(results, Quantity::VerificationTime) <= max_nanos()
    &&& total(results, Quantity::ProofSize) <= usize::MAX
}

/// Whether the sum of `a` and `b` can be held, quantity by quantity.
pub open spec fn sum_fits(a: TrialMeasurement, b: TrialMeasurement) -> bool {
    &&& quantity(a, Quantity::ProofTime) + quantity(b, Quantity::ProofTime) <= max_nanos()
    &&& quantity(a, Quantity::VerificationTime) + quantity(b, Quantity::VerificationTime)
        <= max_nanos()
    &&& quantity(a, Quantity::ProofSize) + quantity(b, Quantity::ProofSize) <= usize::MAX
}

/// Whether `sum` is the sum of `a` and `b`, quantity by quantity.
pub open spec fn is_sum(sum: TrialMeasurement, a: TrialMeasurement, b: TrialMeasurement) -> bool {
    &&& quantity(sum, Quantity::ProofTime) == quantity(a, Quantity::ProofTime) + quantity(
        b,
        Quantity::ProofTime,
    )
    &&& quantity(sum, Quantity::VerificationTime) == quantity(a, Quantity::VerificationTime)
        + quantity(b, Quantity::VerificationTime)
    &&& quantity(sum, Quantity::ProofSize) == quantity(a, Quantity::ProofSize) + quantity(
        b,
        Quantity::ProofSize,
    )
}

/// Whether all three quantities of `m` are zero.
pub open spec fn is_zero(m: TrialMeasurement) -> bool {
    &&& quantity(m, Quantity::ProofTime) == 0
    &&& quantity(m, Quantity::VerificationTime) == 0
    &&& quantity(m, Quantity::ProofSize) == 0
}

/// The measurement of a trial that did nothing.
pub fn zero_measurement() -> (m: TrialMeasurement)
    ensures
        is_zero(m),
{
    (Elapsed::zero(), Elapsed::zero(), 0)
}

/// Adds two measurements quantity by quantity. `None` when a sum cannot be held.
pub fn add_measurements(a: TrialMeasurement, b: TrialMeasurement) -> (sum: Option<
    TrialMeasurement,
>)
    ensures
        sum is Some <==> sum_fits(a, b),
        sum matches Some(s) ==> is_sum(s, a, b),
{
    match (a.0.checked_add(b.0), a.1.checked_add(b.1), a.2.checked_add(b.2)) {
        (Some(proof_time), Some(verification_time), Some(size)) => Some(
            (proof_time, verification_time, size),
        ),
        _ => None,
    }
}

/// Whether `sum` holds the three sums over `results`.
pub open spec fn is_total_of(sum: TrialMeasurement, results: Seq<TrialMeasurement>) -> bool {
    &&& quantity(sum, Quantity::ProofTime) == total(results, Quantity::ProofTime)
    &&& quantity(sum, Quantity::VerificationTime) == total(results, Quantity::VerificationTime)
    &&& quantity(sum, Quantity::ProofSize) == total(results, Quantity::ProofSize)
}

/// The sum over a prefix never exceeds the sum over the whole.
pub proof fn lemma_total_of_prefix(results: Seq<TrialMeasurement>, q: Quantity, n: int)
    requires
        0 <= n <= results.len(),
    ensures
        total(results.take(n), q) <= total(results, q),
    decreases results.len(),
{
    if n == results.len() {
        assert(results.take(n) =~= results);
    } else {
        assert(results.drop_last().take(n) =~= results.take(n));
        lemma_total_of_prefix(results.drop_last(), q, n);
    }
}

/// Extending a prefix by one measurement adds that measurement's quantity.
pub proof fn lemma_total_step(results: Seq<TrialMeasurement>, q: Quantity, n: int)
    requires
        0 <= n < results.len(),
    ensures
        total(results.take(n + 1), q) == total(results.take(n), q) + quantity(results[n], q),
{
    assert(results.take(n + 1).drop_last() =~= results.take(n));
}

/// The sum over two lists in a row is the sum of their sums.
pub proof fn lemma_total_of_concatenation(
    first: Seq<TrialMeasurement>,
    second: Seq<TrialMeasurement>,
    q: Quantity,
)
    ensures
        total(first + second, q) == total(first, q) + total(second, q),
    decreases second.len(),
{
    if second.len() == 0 {
        assert(first + second =~= first);
    } else {
        assert((first + second).drop_last() =~= first + second.drop_last());
        lemma_total_of_concatenation(first, second.drop_last(), q);
    }
}

/// Taking one measurement out of a list takes its quantity out of the sum.
pub proof fn lemma_total_without(results: Seq<TrialMeasurement>, q: Quantity, at: int)
    requires
        0 <= at < results.len(),
    ensures
        total(results, q) == total(results.remove(at), q) + quantity(results[at], q),
{
    let before = results.take(at);
    let after = results.skip(at + 1);
    assert(results =~= before.push(results[at]) + after);
    assert(results.remove(at) =~= before + after);
    assert(before.push(results[at]).drop_last() =~= before);
    lemma_total_of_concatenation(before.push(results[at]), after, q);
    lemma_total_of_concatenation(before, after, q);
}

/// The sums do not depend on the order of the measurements: two lists that
/// hold the same measurements, each as often as the other, have the same sums.
pub proof fn lemma_total_is_order_independent(
    results: Seq<TrialMeasurement>,
    reordered: Seq<TrialMeasurement>,
    q: Quantity,
)
    requires
        results.to_multiset() == reordered.to_multiset(),
    ensures
        total(results, q) == total(reordered, q),
    decreases results.len(),
{
    results.to_multiset_ensures();
    reordered.to_multiset_ensures();
    if results.len() > 0 {
        let last = results.last();
        assert(results.contains(last));
        assert(reordered.to_multiset().count(last) > 0);
        assert(reordered.contains(last));
        let at = choose|at: int| 0 <= at < reordered.len() && reordered[at] == last;
        assert(results.drop_last() =~= results.remove(results.len() - 1));
        assert(results.remove(results.len() - 1).to_multiset() =~= results.to_multiset().remove(
            last,
        ));
        assert(reordered.remove(at).to_multiset() =~= reordered.to_multiset().remove(last));
        lemma_total_is_order_independent(results.drop_last(), reordered.remove(at), q);
        lemma_total_without(reordered, q, at);
    } else {
        assert(reordered.len() == 0);
    }
}

/// Adds up the measurements. `None` when one of the three sums cannot be held.
pub fn sum_measurements(results: &Vec<TrialMeasurement>) -> (sum: Option<TrialMeasurement>)
    ensures
        sum is Some <==> totals_fit(results@),
        sum matches Some(s) ==> is_total_of(s, results@),
{
    let mut sum = zero_measurement();
    let mut i: usize = 0;
    assert(results@.take(0) =~= Seq::empty());
    while i < results.len()
        invariant
            i <= results.len(),
            is_total_of(sum, results@.take(i as int)),
        decreases results.len() - i,
    {
        proof {
            lemma_total_step(results@, Quantity::ProofTime, i as int);
            lemma_total_step(results@, Quantity::VerificationTime, i as int);
            lemma_total_step(results@, Quantity::ProofSize, i as int);
            lemma_total_of_prefix(results@, Quantity::ProofTime, i + 1);
            lemma_total_of_prefix(results@, Quantity::VerificationTime, i + 1);
            lemma_total_of_prefix(results@, Quantity::ProofSize, i + 1);
        }
        match add_measurements(sum, results[i]) {
            Some(next) => {
                sum = next;
            },
            None => {
                return None;
            },
        }
        i += 1;
    }
    proof {
        assert(results@.take(i as int) =~= results@);
        use_type_invariant(&sum.0);
        use_type_invariant(&sum.1);
    }
    Some(sum)
}

} // verus!
