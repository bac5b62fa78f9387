//! xorshift64* pseudo-random generator.
use vstd::prelude::*;

verus! {

/// Seed used in place of zero, which is a fixed point of the xorshift recurrence.
pub const GOLDEN_SEED: u64 = 0x9E3779B97F4A7C15;

/// Odd multiplier of the output scramble.
pub const SCRAMBLE: u64 = 0x2545F4914F6CDD1D;

/// Number of distinct uniform draws: `2^53`, the top 53 bits of a raw draw.
pub const UNIFORM_RANGE: u64 = 0x20_0000_0000_0000;

/// The state that a seed starts the generator in.
pub open spec fn seed_state(seed: u64) -> u64 {
    if seed == 0 {
        GOLDEN_SEED
    } else {
        seed
    }
}

/// One step of the xorshift core.
pub open spec fn xorshift(x: u64) -> u64 {
    let a = x ^ (x >> 12u64);
    let b = a ^ (a << 25u64);
    b ^ (b >> 27u64)
}

/// The raw output for a state: a wrapping multiplication by `SCRAMBLE`.
pub open spec fn scramble(x: u64) -> u64 {
    x.wrapping_mul(SCRAMBLE)
}

/// The state after `k` draws from `seed`.
pub open spec fn state_after(seed: u64, k: nat) -> u64
    decreases k,
{
    if k == 0 {
        seed_state(seed)
    } else {
        xorshift(state_after(seed, (k - 1) as nat))
    }
}

/// The `k`-th raw draw (from zero) of the generator seeded with `seed`.
pub open spec fn output(seed: u64, k: nat) -> u64 {
    scramble(state_after(seed, k + 1))
}

/// The first `k` raw draws of the generator seeded with `seed`.
pub open spec fn stream(seed: u64, k: nat) -> Seq<u64> {
    Seq::new(k, |i: int| output(seed, i as nat))
}

/// A uniform draw as an integer: the top 53 bits of a raw draw.
pub open spec fn uniform_of(raw: u64) -> u64 {
    raw >> 11u64
}

proof fn lemma_xorshift_nonzero(x: u64)
    requires
        x != 0,
    ensures
        xorshift(x) != 0,
{
    assert(x != 0 ==> ((x ^ (x >> 12u64)) ^ ((x ^ (x >> 12u64)) << 25u64)) ^ (((x ^ (x
        >> 12u64)) ^ ((x ^ (x >> 12u64)) << 25u64)) >> 27u64) != 0) by (bit_vector);
}

proof fn lemma_uniform_range(raw: u64)
    ensures
        uniform_of(raw) < UNIFORM_RANGE,
{
    assert(raw >> 11u64 < 0x20_0000_0000_0000) by (bit_vector);
}

/// The state is never zero, whatever the seed and the number of draws.
pub proof fn lemma_state_nonzero(seed: u64, k: nat)
    ensures
        state_after(seed, k) != 0,
    decreases k,
{
    if k > 0 {
        lemma_state_nonzero(seed, (k - 1) as nat);
        lemma_xorshift_nonzero(state_after(seed, (k - 1) as nat));
    }
}

/// Two runs from one seed agree draw for draw on every prefix that both made,
/// whatever their lengths.
pub proof fn lemma_runs_agree(seed: u64, k1: nat, k2: nat)
    requires
        k1 <= k2,
    ensures
        stream(seed, k1) == stream(seed, k2).take(k1 as int),
{
    assert(stream(seed, k1) =~= stream(seed, k2).take(k1 as int));
}

/// Seeding with zero does not give the zero stream: the first draw is not
/// zero, and so differs from a draw made from the zero state.
pub proof fn lemma_zero_seed_nondegenerate()
    ensures
        state_after(0, 0) == GOLDEN_SEED,
        output(0, 0) != 0,
        xorshift(0) == 0,
        scramble(xorshift(0)) == 0,
        output(0, 0) != scramble(xorshift(0)),
{
    reveal_with_fuel(state_after, 2);
    let g = GOLDEN_SEED;
    assert(xorshift(0) == 0) by (bit_vector);
    assert(0u64.wrapping_mul(SCRAMBLE) == 0);
    assert(g == 0x9E3779B97F4A7C15 ==> ((g ^ (g >> 12u64)) ^ ((g ^ (g >> 12u64)) << 25u64)) ^ (((
    g ^ (g >> 12u64)) ^ ((g ^ (g >> 12u64)) << 25u64)) >> 27u64) == 0x3f721dffe39b342)
        by (bit_vector);
    assert(xorshift(g) == 0x3f721dffe39b342);
    assert(0x3f721dffe39b342u64.wrapping_mul(SCRAMBLE) == 0xd83b3e29a21487a);
}

/// The xorshift64* generator: its state is a single non-zero 64-bit word.
pub struct Rng {
    s: u64,
}

impl Rng {
    /// The current state word.
    pub closed spec fn state(self) -> u64 {
        self.s
    }

    /// Starts a generator from `seed`; a zero seed is replaced by `GOLDEN_SEED`.
    pub fn seed(seed: u64) -> (r: Self)
        ensures
            r.state() == seed_state(seed),
            r.state() != 0,
    {
        Rng { s: if seed == 0 { GOLDEN_SEED } else { seed } }
    }

    /// Advances the state by one xorshift step and returns the scrambled raw draw.
    pub fn u64(&mut self) -> (r: u64)
        ensures
            final(self).state() == xorshift(old(self).state()),
            r == scramble(final(self).state()),
            old(self).state() != 0 ==> final(self).state() != 0,
    {
        let mut x = self.s;
        x ^= x >> 12;
        x ^= x << 25;
        x ^= x >> 27;
        self.s = x;
        proof {
            if old(self).state() != 0 {
                lemma_xorshift_nonzero(old(self).state());
            }
        }
        x.wrapping_mul(SCRAMBLE)
    }
    /// A uniform draw as an integer in `[0, 2^53)`: the top 53 bits of one
    /// raw draw. Scaled by `2^-53` it is a uniform value in `[0, 1)`.
    pub fn uniform_bits(&mut self) -> (r: u64)
        ensures
            final(self).state() == xorshift(old(self).state()),
            r == uniform_of(scramble(final(self).state())),
            r < UNIFORM_RANGE,
            old(self).state() != 0 ==> final(self).state() != 0,
    {
        let raw = self.u64();
        proof {
            lemma_uniform_range(raw);
        }
        raw >> 11
    }

    /// The two uniform draws that one normal variate is made from, in the
    /// order they are drawn.
    pub fn normal_bits(&mut self) -> (r: (u64, u64))
        ensures
            final(self).state() == xorshift(xorshift(old(self).state())),
            r.0 == uniform_of(scramble(xorshift(old(self).state()))),
            r.1 == uniform_of(scramble(final(self).state())),
            r.0 < UNIFORM_RANGE,
            r.1 < UNIFORM_RANGE,
            old(self).state() != 0 ==> final(self).state() != 0,
    {
        let u1 = self.uniform_bits();
        let u2 = self.uniform_bits();
        (u1, u2)
    }
}

/// The first `k` raw draws of a generator seeded with `seed`.
pub fn draws(seed: u64, k: usize) -> (r: Vec<u64>)
    ensures
        r@ == stream(seed, k as nat),
{
    let mut rng = Rng::seed(seed);
    let mut v: Vec<u64> = Vec::new();
    let mut i: usize = 0;
    while i < k
        invariant
            i <= k,
            rng.state() == state_after(seed, i as nat),
            v@ == stream(seed, i as nat),
        decreases k - i,
    {
        let x = rng.u64();
        proof {
            assert(state_after(seed, (i + 1) as nat) == xorshift(state_after(seed, i as nat)));
        }
        v.push(x);
        i = i + 1;
        assert(v@ =~= stream(seed, i as nat));
    }
    v
}

} // verus!
