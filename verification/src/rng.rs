//! The seeded generator behind every search: xorshift64* over one word of
//! state.

use vstd::prelude::*;

verus! {

/// Multiplier of the output scrambler.
pub const SCRAMBLE: u64 = 0x2545_F491_4F6C_DD1D;

/// One step of the 64-bit xorshift register.
pub open spec fn xorshift(x: u64) -> u64 {
    let a = x ^ (x << 13u64);
    let b = a ^ (a >> 7u64);
    b ^ (b << 17u64)
}

/// The register after `k` steps from `x`.
pub open spec fn register(x: u64, k: nat) -> u64
    decreases k,
{
    if k == 0 {
        x
    } else {
        xorshift(register(x, (k - 1) as nat))
    }
}

/// The `k`-th word drawn from register state `x`, counting from zero.
pub open spec fn word(x: u64, k: nat) -> u64 {
    register(x, k + 1).wrapping_mul(SCRAMBLE)
}

/// The `k`-th word reduced to an index below `n`.
pub open spec fn index_below(x: u64, k: nat, n: int) -> int {
    word(x, k) as int % n
}

/// The `k`-th word reduced to the numerator of a fraction of 2^53.
pub open spec fn unit_of(x: u64, k: nat) -> u64 {
    word(x, k) >> 11u64
}

/// A seeded generator. The register is never zero, the one state from which
/// xorshift cannot move.
pub struct Rng(u64);

impl Clone for Rng {
    fn clone(&self) -> (r: Self)
        ensures
            r == *self,
    {
        proof {
            use_type_invariant(self);
        }
        Rng(self.0)
    }
}

impl Rng {
    pub closed spec fn state(&self) -> u64 {
        self.0
    }

    #[verifier::type_invariant]
    spec fn live(self) -> bool {
        self.0 != 0
    }

    /// A generator started at `seed`, or at one for a zero seed.
    pub fn new(seed: u64) -> (r: Self)
        ensures
            r.state() == (if seed == 0 { 1 } else { seed }),
    {
        if seed == 0 {
            Rng(1)
        } else {
            Rng(seed)
        }
    }

    /// The next word of the stream.
    pub fn next(&mut self) -> (r: u64)
        ensures
            final(self).state() == register(old(self).state(), 1),
            r == word(old(self).state(), 0),
    {
        proof {
            use_type_invariant(&*self);
            reveal_with_fuel(register, 2);
            xorshift_never_stalls(self.0);
        }
        let x0: u64 = self.0;
        let x1: u64 = x0 ^ (x0 << 13u64);
        let x2: u64 = x1 ^ (x1 >> 7u64);
        let x3: u64 = x2 ^ (x2 << 17u64);
        self.0 = x3;
        x3.wrapping_mul(SCRAMBLE)
    }

    /// An index below `n`.
    pub fn below(&mut self, n: usize) -> (r: usize)
        requires
            n > 0,
        ensures
            final(self).state() == register(old(self).state(), 1),
            r == index_below(old(self).state(), 0, n as int),
            r < n,
    {
        let w: u64 = self.next();
        (w % n as u64) as usize
    }

    /// The numerator of a fraction of 2^53, uniform over the half-open unit
    /// interval.
    pub fn unit(&mut self) -> (r: u64)
        ensures
            final(self).state() == register(old(self).state(), 1),
            r == unit_of(old(self).state(), 0),
            r < 0x20_0000_0000_0000,
    {
        let w: u64 = self.next();
        assert(w >> 11u64 < 0x20_0000_0000_0000) by (bit_vector);
        w >> 11u64
    }

    /// `below`, for a stream of which `k` words have been drawn from `x`.
    pub(crate) fn below_at(&mut self, n: usize, Ghost(x): Ghost<u64>, Ghost(k): Ghost<nat>) -> (r:
        usize)
        requires
            n > 0,
            old(self).state() == register(x, k),
        ensures
            final(self).state() == register(x, k + 1),
            r == index_below(x, k, n as int),
            r < n,
    {
        proof {
            register_adds(x, k, 1);
            words_shift(x, k, 0);
        }
        self.below(n)
    }

    /// `unit`, for a stream of which `k` words have been drawn from `x`.
    pub(crate) fn unit_at(&mut self, Ghost(x): Ghost<u64>, Ghost(k): Ghost<nat>) -> (r: u64)
        requires
            old(self).state() == register(x, k),
        ensures
            final(self).state() == register(x, k + 1),
            r == unit_of(x, k),
            r < 0x20_0000_0000_0000,
    {
        proof {
            register_adds(x, k, 1);
            words_shift(x, k, 0);
        }
        self.unit()
    }
}

/// A stream joined after `a` words goes on with word `a`.
pub proof fn words_shift(x: u64, a: nat, k: nat)
    ensures
        word(register(x, a), k) == word(x, a + k),
{
    register_adds(x, a, k + 1);
    assert(a + (k + 1) == a + k + 1);
}

/// A live register stays live.
pub proof fn xorshift_never_stalls(x: u64)
    requires
        x != 0,
    ensures
        xorshift(x) != 0,
{
    let a = x ^ (x << 13u64);
    let b = a ^ (a >> 7u64);
    assert(x != 0 ==> x ^ (x << 13u64) != 0) by (bit_vector);
    assert(a != 0 ==> a ^ (a >> 7u64) != 0) by (bit_vector);
    assert(b != 0 ==> b ^ (b << 17u64) != 0) by (bit_vector);
}

/// Two different registers never merge: a stream determines its seed.
pub proof fn xorshift_is_injective(x: u64, y: u64)
    requires
        xorshift(x) == xorshift(y),
    ensures
        x == y,
{
    let a = x ^ (x << 13u64);
    let b = a ^ (a >> 7u64);
    let c = y ^ (y << 13u64);
    let d = c ^ (c >> 7u64);
    assert(b ^ (b << 17u64) == d ^ (d << 17u64) ==> b == d) by (bit_vector);
    assert(a ^ (a >> 7u64) == c ^ (c >> 7u64) ==> a == c) by (bit_vector);
    assert(x ^ (x << 13u64) == y ^ (y << 13u64) ==> x == y) by (bit_vector);
}

/// Stepping `a` times and then `b` times is stepping `a + b` times.
pub proof fn register_adds(x: u64, a: nat, b: nat)
    ensures
        register(register(x, a), b) == register(x, a + b),
    decreases b,
{
    if b > 0 {
        register_adds(x, a, (b - 1) as nat);
        assert(a + b == (a + (b - 1) as nat) + 1);
    }
}

/// An index below `n` leaves a whole multiple of `n` of its word, and a fraction is what
/// is left of its word without the eleven bits at its end.
pub proof fn words_are_reduced(x: u64, k: nat, n: int)
    requires
        n > 0,
    ensures
        0 <= index_below(x, k, n) < n,
        exists|q: int| 0 <= q && #[trigger] (q * n) + index_below(x, k, n) == word(x, k),
        2_048 * unit_of(x, k) <= word(x, k) < 2_048 * (unit_of(x, k) + 1),
{
    let w = word(x, k);
    vstd::arithmetic::div_mod::lemma_fundamental_div_mod(w as int, n);
    vstd::arithmetic::div_mod::lemma_mod_bound(w as int, n);
    vstd::arithmetic::div_mod::lemma_div_pos_is_pos(w as int, n);
    let q = w as int / n;
    assert(q * n == n * q) by (nonlinear_arith);
    assert(q * n + index_below(x, k, n) == w);
    assert(w >> 11u64 == w / 2_048) by (bit_vector);
}

} // verus!
