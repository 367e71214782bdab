//! How often each field element was looked up.

use crate::field::{key_of, modulus, radix, Scalar};
use std::collections::BTreeMap;
use vstd::prelude::*;

verus! {

broadcast use {vstd::std_specs::btree::group_btree_axioms, vstd::laws_cmp::group_laws_cmp};

/// Distinct integers below `2^256` have distinct keys.
pub proof fn lemma_key_injective(a: nat, b: nat)
    requires
        a < radix() * radix() * radix() * radix(),
        b < radix() * radix() * radix() * radix(),
        key_of(a) == key_of(b),
    ensures
        a == b,
{
    lemma_limbs_of(a);
    lemma_limbs_of(b);
}

/// An integer below `2^256` is spelled by the four limbs of its key.
proof fn lemma_limbs_of(v: nat)
    requires
        v < radix() * radix() * radix() * radix(),
    ensures
        v == (key_of(v).3 as nat) + radix() * ((key_of(v).2 as nat) + radix() * ((key_of(v).1 as nat)
            + radix() * (key_of(v).0 as nat))),
{
    let r = radix() as int;
    let x = v as int;
    let q1 = x / r;
    let q2 = q1 / r;
    let q3 = q2 / r;
    vstd::arithmetic::div_mod::lemma_fundamental_div_mod(x, r);
    vstd::arithmetic::div_mod::lemma_fundamental_div_mod(q1, r);
    vstd::arithmetic::div_mod::lemma_fundamental_div_mod(q2, r);
    vstd::arithmetic::div_mod::lemma_div_denominator(x, r, r);
    vstd::arithmetic::div_mod::lemma_div_denominator(x, r * r, r);
    assert(q2 == x / (r * r));
    assert(q3 == x / (r * r * r));
    assert(0 <= x % r < r && 0 <= q1 % r < r && 0 <= q2 % r < r);
    assert(0 <= q3 < r);
}

/// A count for every field element, zero for all but finitely many.
#[derive(Clone, Debug)]
pub struct Multiplicities {
    counts: BTreeMap<(u64, u64, u64, u64), usize>,
}

impl Multiplicities {
    /// How often `v` was recorded.
    pub closed spec fn count(self, v: nat) -> nat {
        if self.counts@.contains_key(key_of(v)) {
            self.counts@[key_of(v)] as nat
        } else {
            0
        }
    }

    /// Nothing recorded.
    pub fn new() -> (r: Multiplicities)
        ensures
            forall|v: nat| r.count(v) == 0,
    {
        Multiplicities { counts: BTreeMap::new() }
    }

    /// How often `value` was recorded.
    pub fn get(&self, value: &Scalar) -> (r: usize)
        ensures
            r == self.count(value@),
    {
        let key = value.key();
        match self.counts.get(&key) {
            Some(c) => *c,
            None => 0,
        }
    }

    /// Records one more occurrence of `value`.
    pub fn record(&mut self, value: &Scalar)
        requires
            old(self).count(value@) < usize::MAX,
        ensures
            final(self).count(value@) == old(self).count(value@) + 1,
            forall|v: nat| v < modulus() && v != value@ ==> final(self).count(v) == old(self).count(v),
    {
        let key = value.key();
        let seen = self.get(value);
        self.counts.insert(key, seen + 1);
        proof {
            use_type_invariant(value);
            crate::field::lemma_modulus_bounds();
            assert forall|v: nat| v < modulus() && v != value@ implies final(self).count(v) == old(self).count(v) by {
                if key_of(v) == key {
                    lemma_key_injective(v, value@);
                }
            }
        }
    }
}

} // verus!
