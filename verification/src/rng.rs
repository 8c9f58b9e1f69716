//! Sources of randomness.
//!
//! Every generator is parameterised over a [`RandomSource`], mirroring how
//! the primitive generators take a caller-supplied random generator.  The
//! library ships two implementations: [`ThreadRandom`], backed by rand's
//! thread-local generator, and [`SplitMix64`], a small deterministic
//! generator verified end to end and convenient for reproducible runs.

use vstd::prelude::*;

verus! {

/// A mutable stream of random values.  The uniform draws promise their
/// range; nothing is promised about the distribution of `next_gauss`,
/// whose result may fall anywhere in its type.
pub trait RandomSource {
    /// One draw uniform over the half-open interval `[min, max)`.
    fn next_i64_in(&mut self, min: i64, max: i64) -> (r: i64)
        requires
            min < max,
        ensures
            min <= r < max,
    ;

    /// One draw uniform over `[0, n)`, for indexing into a non-empty slice.
    fn next_index(&mut self, n: usize) -> (r: usize)
        requires
            n > 0,
        ensures
            r < n,
    ;

    /// One draw centred on `mean` with spread `std_dev`.  The result is not
    /// clamped to any interval around the mean and may be negative.
    fn next_gauss(&mut self, mean: i32, std_dev: i32) -> (r: i32);
}

/// The absolute spread used by the in-library gauss approximation.
pub(crate) fn gauss_spread(std_dev: i32) -> (s: i64)
    ensures
        0 <= s <= 0x80000000i64,
{
    let wide: i64 = std_dev as i64;
    if wide < 0 {
        -wide
    } else {
        wide
    }
}

/// A normal-like value built from three uniform draws on `[0, 2s)`: their
/// sum has mean `3s` and standard deviation `s`, so `mean - 3s + sum` is
/// centred on `mean` with spread `s`, clamped to the result type.  The
/// library holds no floating point, so implementations that want an exact
/// normal sampler supply their own `RandomSource`.
pub(crate) fn gauss_combine(mean: i32, s: i64, d1: i64, d2: i64, d3: i64) -> i32
    requires
        0 < s <= 0x80000000i64,
        0 <= d1 < 2 * s,
        0 <= d2 < 2 * s,
        0 <= d3 < 2 * s,
{
    let v: i64 = mean as i64 - 3 * s + d1 + d2 + d3;
    if v < -2147483648i64 {
        i32::MIN
    } else if v > 2147483647i64 {
        i32::MAX
    } else {
        v as i32
    }
}

#[verifier::external_type_specification]
#[verifier::external_body]
pub struct ExThreadRng(rand::rngs::ThreadRng);

/// A source backed by rand's lazily seeded thread-local generator, the
/// default source for generation workers.
pub struct ThreadRandom {
    rng: rand::rngs::ThreadRng,
}

impl ThreadRandom {
    /// Relies on `rand::thread_rng`: a handle to the thread-local generator.
    #[verifier::external_body]
    pub fn new() -> (r: ThreadRandom) {
        ThreadRandom { rng: rand::thread_rng() }
    }

    /// Relies on rand's `Rng::gen_range` over `min..max`: a value uniform in
    /// `[min, max)`; it panics only on an empty range, which the
    /// precondition rules out.
    #[verifier::external_body]
    fn gen_i64_in(&mut self, min: i64, max: i64) -> (r: i64)
        requires
            min < max,
        ensures
            min <= r < max,
    {
        rand::Rng::gen_range(&mut self.rng, min..max)
    }

    /// Relies on rand's `Rng::gen_range` over `0..n`: a value uniform in
    /// `[0, n)`; it panics only on an empty range, which the precondition
    /// rules out.
    #[verifier::external_body]
    fn gen_index(&mut self, n: usize) -> (r: usize)
        requires
            n > 0,
        ensures
            r < n,
    {
        rand::Rng::gen_range(&mut self.rng, 0..n)
    }
}

impl RandomSource for ThreadRandom {
    fn next_i64_in(&mut self, min: i64, max: i64) -> (r: i64) {
        self.gen_i64_in(min, max)
    }

    fn next_index(&mut self, n: usize) -> (r: usize) {
        self.gen_index(n)
    }

    fn next_gauss(&mut self, mean: i32, std_dev: i32) -> (r: i32) {
        let s = gauss_spread(std_dev);
        if s == 0 {
            return mean;
        }
        let d1 = self.gen_i64_in(0, 2 * s);
        let d2 = self.gen_i64_in(0, 2 * s);
        let d3 = self.gen_i64_in(0, 2 * s);
        gauss_combine(mean, s, d1, d2, d3)
    }
}

/// A deterministic 64-bit mixing generator: each draw advances the state by
/// a fixed odd increment and scrambles it with xor-shift multiplications.
pub struct SplitMix64 {
    state: u64,
}

impl SplitMix64 {
    pub fn new(seed: u64) -> SplitMix64 {
        SplitMix64 { state: seed }
    }

    fn next_u64(&mut self) -> u64 {
        self.state = self.state.wrapping_add(0x9E3779B97F4A7C15u64);
        let mut z: u64 = self.state;
        z = (z ^ (z >> 30u64)).wrapping_mul(0xBF58476D1CE4E5B9u64);
        z = (z ^ (z >> 27u64)).wrapping_mul(0x94D049BB133111EBu64);
        z ^ (z >> 31u64)
    }

    fn uniform_i64_in(&mut self, min: i64, max: i64) -> (r: i64)
        requires
            min < max,
        ensures
            min <= r < max,
    {
        let span: u128 = ((max as i128) - (min as i128)) as u128;
        let x = self.next_u64();
        let off: u128 = (x as u128) % span;
        proof {
            assert(off < span);
            assert((min as i128) + (off as i128) < (max as i128));
        }
        ((min as i128) + (off as i128)) as i64
    }
}

impl RandomSource for SplitMix64 {
    fn next_i64_in(&mut self, min: i64, max: i64) -> (r: i64) {
        self.uniform_i64_in(min, max)
    }

    fn next_index(&mut self, n: usize) -> (r: usize) {
        let x = self.next_u64();
        (x % (n as u64)) as usize
    }

    fn next_gauss(&mut self, mean: i32, std_dev: i32) -> (r: i32) {
        let s = gauss_spread(std_dev);
        if s == 0 {
            return mean;
        }
        let d1 = self.uniform_i64_in(0, 2 * s);
        let d2 = self.uniform_i64_in(0, 2 * s);
        let d3 = self.uniform_i64_in(0, 2 * s);
        gauss_combine(mean, s, d1, d2, d3)
    }
}

} // verus!
