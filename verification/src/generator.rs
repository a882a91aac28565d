//! Reproducible sequence of 32-byte values derived from a seed and a counter.

use sha2::Digest;
use vstd::arithmetic::div_mod::lemma_add_mod_noop_right;
use vstd::bytes::{spec_u64_to_le_bytes, u64_to_le_bytes};
use vstd::prelude::*;

verus! {

/// The SHA-256 digest of `data`, as computed by `sha2::Sha256`.
pub uninterp spec fn sha256(data: Seq<u8>) -> Seq<u8>;

/// Hashes `data` with `sha2::Sha256` (`new`, one `update`, `finalize`).
/// Trusted: the returned array is the SHA-256 digest of exactly the bytes of `data`.
#[verifier::external_body]
fn sha256_digest(data: &Vec<u8>) -> (digest: [u8; 32])
    ensures
        digest@ == sha256(data@),
{
    let mut hasher = sha2::Sha256::new();
    hasher.update(data.as_slice());
    hasher.finalize().into()
}

/// The bytes that are hashed for the draw made at `counter`:
/// the counter in little-endian order, followed by the seed.
pub open spec fn draw_input(seed: Seq<u8>, counter: u64) -> Seq<u8> {
    spec_u64_to_le_bytes(counter) + seed
}

/// The value drawn at `counter` from a generator seeded with `seed`.
pub open spec fn draw_at(seed: Seq<u8>, counter: u64) -> Seq<u8> {
    sha256(draw_input(seed, counter))
}

/// The counter reached from `start` after `steps` draws. The counter is a
/// 64-bit value and starts over at zero after `u64::MAX`.
pub open spec fn counter_after(start: u64, steps: nat) -> u64 {
    ((start + steps) % 0x1_0000_0000_0000_0000) as u64
}

/// The `n` values drawn in order by a generator that stands at `start`.
pub open spec fn draws(seed: Seq<u8>, start: u64, n: nat) -> Seq<Seq<u8>> {
    Seq::new(n, |i: int| draw_at(seed, counter_after(start, i as nat)))
}

/// Mathematical state of a generator.
pub struct GeneratorState {
    pub seed: Seq<u8>,
    pub counter: u64,
}

/// Deterministic generator of 32-byte values.
pub struct BasicPRNG {
    seed: [u8; 32],
    counter: u64,
}

impl View for BasicPRNG {
    type V = GeneratorState;

    closed spec fn view(&self) -> GeneratorState {
        GeneratorState { seed: self.seed@, counter: self.counter }
    }
}

impl Default for BasicPRNG {
    /// The generator with the all-zero seed.
    fn default() -> (g: BasicPRNG)
        ensures
            g@.seed == Seq::new(32, |i: int| 0u8),
            g@.counter == 0,
    {
        let g = BasicPRNG::new([0u8; 32]);
        assert(g@.seed =~= Seq::new(32, |i: int| 0u8));
        g
    }
}

impl BasicPRNG {
    /// A generator for `seed` that has drawn nothing yet.
    pub fn new(seed: [u8; 32]) -> (g: BasicPRNG)
        ensures
            g@.seed == seed@,
            g@.counter == 0,
    {
        let counter = 0u64;
        BasicPRNG { counter, seed }
    }

    /// Draws one value: the digest of the counter's little-endian bytes
    /// followed by the seed. The counter advances by one.
    pub fn rand_bytes(&mut self) -> (out: [u8; 32])
        ensures
            out@ == draw_at(old(self)@.seed, old(self)@.counter),
            final(self)@.seed == old(self)@.seed,
            final(self)@.counter == counter_after(old(self)@.counter, 1),
    {
        let mut input: Vec<u8> = u64_to_le_bytes(self.counter);
        let mut i: usize = 0;
        while i < 32
            invariant
                i <= 32,
                input@ == spec_u64_to_le_bytes(self.counter) + self.seed@.take(i as int),
            decreases 32 - i,
        {
            input.push(self.seed[i]);
            assert(self.seed@.take(i + 1) =~= self.seed@.take(i as int).push(self.seed@[i as int]));
            i += 1;
        }
        assert(self.seed@.take(32) =~= self.seed@);
        let out = sha256_digest(&input);
        self.counter = self.counter.wrapping_add(1);
        out
    }

    /// Draws `num_keys` values in order.
    pub fn rand_vec_bytes(&mut self, num_keys: usize) -> (out: Vec<[u8; 32]>)
        ensures
            out.len() == num_keys,
            forall|i: int|
                0 <= i < num_keys ==> (#[trigger] out[i])@ == draws(
                    old(self)@.seed,
                    old(self)@.counter,
                    num_keys as nat,
                )[i],
            final(self)@.seed == old(self)@.seed,
            final(self)@.counter == counter_after(old(self)@.counter, num_keys as nat),
    {
        let mut out: Vec<[u8; 32]> = Vec::new();
        let mut k: usize = 0;
        while k < num_keys
            invariant
                k <= num_keys,
                out.len() == k,
                self@.seed == old(self)@.seed,
                self@.counter == counter_after(old(self)@.counter, k as nat),
                forall|i: int|
                    0 <= i < k ==> (#[trigger] out[i])@ == draw_at(
                        old(self)@.seed,
                        counter_after(old(self)@.counter, i as nat),
                    ),
            decreases num_keys - k,
        {
            let value = self.rand_bytes();
            out.push(value);
            k += 1;
        }
        out
    }
}

/// Determinism: generators with the same seed that stand at the same counter
/// draw the same values, however many.
pub proof fn lemma_same_seed_same_draws(a: GeneratorState, b: GeneratorState, n: nat)
    requires
        a.seed == b.seed,
        a.counter == b.counter,
    ensures
        draws(a.seed, a.counter, n) == draws(b.seed, b.counter, n),
{
}

/// The value of a draw depends on the seed and on the counter alone: the
/// draw that follows `steps` others is the first draw of a generator that
/// starts at the counter reached by then.
pub proof fn lemma_draw_depends_on_counter(seed: Seq<u8>, start: u64, n: nat, steps: nat)
    requires
        steps < n,
    ensures
        draws(seed, start, n)[steps as int] == draws(seed, counter_after(start, steps), 1)[0],
{
    assert(counter_after(counter_after(start, steps), 0) == counter_after(start, steps));
}

/// Drawing `n` values and then `m` more gives the `n + m` values that are
/// drawn at once.
pub proof fn lemma_draws_in_two_parts(seed: Seq<u8>, start: u64, n: nat, m: nat)
    ensures
        draws(seed, start, n + m) == draws(seed, start, n) + draws(
            seed,
            counter_after(start, n),
            m,
        ),
{
    let whole = draws(seed, start, n + m);
    let parts = draws(seed, start, n) + draws(seed, counter_after(start, n), m);
    assert forall|i: int| 0 <= i < n + m implies whole[i] == parts[i] by {
        if i >= n {
            lemma_add_mod_noop_right(i - n, start + n, 0x1_0000_0000_0000_0000);
            assert(counter_after(counter_after(start, n), (i - n) as nat) == counter_after(
                start,
                i as nat,
            ));
        }
    }
    assert(whole =~= parts);
}

} // verus!
