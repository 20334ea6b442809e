use vstd::arithmetic::div_mod::{lemma_add_mod_noop, lemma_mul_mod_noop_left, lemma_sub_mod_noop};
use vstd::prelude::*;

verus! {

/// The sum of `value * weight` over the terms, as an unbounded integer.
pub open spec fn weighted_sum(terms: Seq<(u64, u64)>) -> int
    decreases terms.len(),
{
    if terms.len() == 0 {
        0
    } else {
        weighted_sum(terms.drop_last()) + terms.last().0 * terms.last().1
    }
}

/// The change-detection hash of a list of (value, weight) terms: their
/// weighted sum modulo 2^64.
pub open spec fn property_hash_spec(terms: Seq<(u64, u64)>) -> u64 {
    (weighted_sum(terms) % 0x1_0000_0000_0000_0000) as u64
}

/// Folds the (value, weight) terms that describe a generator's settings
/// into one 64-bit hash: each value is multiplied by its weight and the
/// products are added, all with wrap-around.
pub fn property_hash(terms: &[(u64, u64)]) -> (h: u64)
    ensures
        h == property_hash_spec(terms@),
{
    let mut hash: u64 = 0;
    let mut k: usize = 0;
    while k < terms.len()
        invariant
            k <= terms@.len(),
            hash == weighted_sum(terms@.take(k as int)) % 0x1_0000_0000_0000_0000,
        decreases terms@.len() - k,
    {
        let (value, weight) = terms[k];
        let product = value.wrapping_mul(weight);
        let ghost before = hash;
        hash = hash.wrapping_add(product);
        proof {
            let m = 0x1_0000_0000_0000_0000int;
            let s = weighted_sum(terms@.take(k as int));
            assert(terms@.take(k + 1).drop_last() =~= terms@.take(k as int));
            assert(terms@.take(k + 1).last() == terms@[k as int]);
            assert(product == (value * weight) % m);
            assert(hash == (before + product) % m);
            lemma_add_mod_noop(s, value * weight, m);
            assert((s % m) % m == s % m) by {
                vstd::arithmetic::div_mod::lemma_mod_twice(s, m);
            }
            lemma_add_mod_noop(s % m, value * weight, m);
        }
        k = k + 1;
    }
    proof {
        assert(terms@.take(k as int) =~= terms@);
    }
    hash
}

/// Replacing the value of term `k` shifts the weighted sum by the change
/// in value times that term's weight.
pub proof fn lemma_weighted_sum_update(terms: Seq<(u64, u64)>, k: int, v: u64)
    requires
        0 <= k < terms.len(),
    ensures
        weighted_sum(terms.update(k, (v, terms[k].1))) == weighted_sum(terms) + (v - terms[k].0)
            * terms[k].1,
    decreases terms.len(),
{
    let t2 = terms.update(k, (v, terms[k].1));
    if k == terms.len() - 1 {
        assert(t2.drop_last() =~= terms.drop_last());
        assert((v - terms[k].0) * terms[k].1 == v * terms[k].1 - terms[k].0 * terms[k].1) by (nonlinear_arith);
    } else {
        lemma_weighted_sum_update(terms.drop_last(), k, v);
        assert(t2.drop_last() =~= terms.drop_last().update(k, (v, terms[k].1)));
    }
}

/// Editing the value of one term changes the hash exactly when the change
/// in value times the term's weight is not a multiple of 2^64. Equal terms
/// always give equal hashes, since the hash is a function of the terms.
pub proof fn lemma_single_change_exact(terms: Seq<(u64, u64)>, k: int, v: u64)
    requires
        0 <= k < terms.len(),
    ensures
        property_hash_spec(terms.update(k, (v, terms[k].1))) != property_hash_spec(terms) <==> ((v
            - terms[k].0) * terms[k].1) % 0x1_0000_0000_0000_0000 != 0,
{
    let m = 0x1_0000_0000_0000_0000int;
    let p = terms[k].1;
    let s = weighted_sum(terms);
    let s2 = weighted_sum(terms.update(k, (v, p)));
    lemma_weighted_sum_update(terms, k, v);
    let dp = (v - terms[k].0) * p;
    assert(s2 == s + dp);
    if dp % m == 0 {
        lemma_add_mod_noop(s, dp, m);
        vstd::arithmetic::div_mod::lemma_mod_twice(s, m);
        assert(s2 % m == s % m);
    } else {
        if s2 % m == s % m {
            lemma_sub_mod_noop(s2, s, m);
            assert(s2 - s == dp);
            assert(((s2 % m) - (s % m)) % m == 0);
        }
    }
}

/// Change detection never misses a single edited setting whose weight is
/// odd: changing the value of one such term always changes the hash.
pub proof fn lemma_single_change_detected(terms: Seq<(u64, u64)>, k: int, v: u64)
    requires
        0 <= k < terms.len(),
        terms[k].1 % 2 == 1,
        v != terms[k].0,
    ensures
        property_hash_spec(terms.update(k, (v, terms[k].1))) != property_hash_spec(terms),
{
    let m = 0x1_0000_0000_0000_0000int;
    let p = terms[k].1;
    let s = weighted_sum(terms);
    let s2 = weighted_sum(terms.update(k, (v, p)));
    lemma_weighted_sum_update(terms, k, v);
    let diff = v - terms[k].0;
    let d = diff % m;
    assert(0 < d < m);
    assert(d < 0x1_0000_0000_0000_0000);
    let du = d as u64;
    assert((p % 2 == 1 && du != 0) ==> (du * p) % 0x1_0000_0000_0000_0000 != 0) by (bit_vector);
    lemma_mul_mod_noop_left(diff, p as int, m);
    assert((diff * p) % m != 0);
    if s2 % m == s % m {
        lemma_sub_mod_noop(s2, s, m);
        assert(s2 - s == diff * p);
        assert(((s2 % m) - (s % m)) % m == 0);
    }
}

} // verus!
