use vstd::prelude::*;

verus! {

/// One xorshift64 step with shifts 13, 7 and 17.
pub open spec fn xorshift(x: u64) -> u64 {
    let a = x ^ (x << 13u64);
    let b = a ^ (a >> 7u64);
    b ^ (b << 17u64)
}

/// The state a generator created from `seed` starts in.
pub open spec fn initial_state(seed: i32) -> u64 {
    if seed == 0 {
        1u64
    } else {
        seed as u64
    }
}

/// The state after `n` steps from `state`.
pub open spec fn state_after(state: u64, n: nat) -> u64
    decreases n,
{
    if n == 0 {
        state
    } else {
        xorshift(state_after(state, (n - 1) as nat))
    }
}

/// Xorshift64 generator used for deterministic generation.
pub struct SeededRng {
    state: u64,
}

impl View for SeededRng {
    type V = u64;

    open spec fn view(&self) -> u64 {
        self.state_spec()
    }
}

impl SeededRng {
    pub closed spec fn state_spec(&self) -> u64 {
        self.state
    }

    #[verifier::type_invariant]
    spec fn nonzero(&self) -> bool {
        self.state != 0
    }

    /// Creates a generator; a zero seed is replaced by one so that the
    /// state is never zero.
    pub fn new(seed: i32) -> (rng: Self)
        ensures
            rng@ == initial_state(seed),
            rng@ != 0,
    {
        let state: u64 = if seed == 0 {
            1
        } else {
            seed as u64
        };
        proof {
            lemma_sign_extend_nonzero(seed);
        }
        SeededRng { state }
    }

    /// The current state.
    pub fn state(&self) -> (s: u64)
        ensures
            s == self@,
            s != 0,
    {
        proof {
            use_type_invariant(self);
        }
        self.state
    }

    /// Advances the generator by one xorshift step and returns the new state.
    pub fn next(&mut self) -> (r: u64)
        ensures
            r == xorshift(old(self)@),
            final(self)@ == r,
            r != 0,
    {
        proof {
            use_type_invariant(&*self);
        }
        let x0 = self.state;
        let x1 = x0 ^ (x0 << 13u64);
        let x2 = x1 ^ (x1 >> 7u64);
        let x3 = x2 ^ (x2 << 17u64);
        proof {
            lemma_xorshift_nonzero(x0);
        }
        self.state = x3;
        x3
    }
}

/// A non-zero seed stays non-zero when sign-extended to 64 bits.
proof fn lemma_sign_extend_nonzero(seed: i32)
    ensures
        seed != 0 ==> (seed as u64) != 0,
{
    assert(seed != 0 ==> (seed as u64) != 0) by (bit_vector);
}

/// Each xorshift step is injective on 64-bit words and fixes zero, so it
/// never maps a non-zero state to zero.
pub proof fn lemma_xorshift_nonzero(x: u64)
    ensures
        x != 0 ==> xorshift(x) != 0,
{
    let a = x ^ (x << 13u64);
    let b = a ^ (a >> 7u64);
    let c = b ^ (b << 17u64);
    assert(c == 0 ==> b == 0) by (bit_vector)
        requires
            c == b ^ (b << 17u64),
    ;
    assert(b == 0 ==> a == 0) by (bit_vector)
        requires
            b == a ^ (a >> 7u64),
    ;
    assert(a == 0 ==> x == 0) by (bit_vector)
        requires
            a == x ^ (x << 13u64),
    ;
}

/// A generator never reaches the all-zero state, whatever the seed and
/// however many steps it takes.
pub proof fn lemma_state_never_zero(seed: i32, n: nat)
    ensures
        state_after(initial_state(seed), n) != 0,
    decreases n,
{
    if n == 0 {
        lemma_sign_extend_nonzero(seed);
    } else {
        lemma_state_never_zero(seed, (n - 1) as nat);
        lemma_xorshift_nonzero(state_after(initial_state(seed), (n - 1) as nat));
    }
}

/// The seed of stem `stem_idx` of a multi-stem tree: the tree's seed
/// moved on by 1337 per stem, wrapping around.
pub open spec fn stem_seed_spec(seed: i32, stem_idx: usize) -> i32 {
    vstd::wrapping::i32_specs::wrapping_add(seed, (stem_idx * 1337) as i32)
}

/// Seed for one stem of a multi-stem tree, so that each stem branches
/// differently.
pub fn stem_seed(seed: i32, stem_idx: usize) -> (s: i32)
    requires
        stem_idx * 1337 <= i32::MAX,
    ensures
        s == stem_seed_spec(seed, stem_idx),
        // the tree's seed moved on by 1337 per stem, wrapping around 32 bits
        (s as int - seed as int - stem_idx * 1337) % 0x1_0000_0000 == 0,
{
    let s = seed.wrapping_add(stem_idx as i32 * 1337);
    proof {
        let d = (stem_idx * 1337) as i32;
        let m = 0x1_0000_0000int;
        assert(s as int == seed as int + d as int || s as int == seed as int + d as int - m || s as int == seed as int + d as int + m);
        assert(d as int == stem_idx * 1337);
        vstd::arithmetic::div_mod::lemma_mod_self_0(m);
        if s as int == seed as int + d as int - m {
            vstd::arithmetic::div_mod::lemma_mod_multiples_basic(-1, m);
        } else if s as int == seed as int + d as int + m {
            vstd::arithmetic::div_mod::lemma_mod_multiples_basic(1, m);
        }
    }
    s
}

} // verus!
