//! The BN254 scalar field, as canonical little-endian limbs.

use halo2_axiom::halo2curves::bn256::Fr;
use vstd::prelude::*;

verus! {

/// The radix of one limb, `2^64`.
pub open spec fn radix() -> nat {
    0x1_0000_0000_0000_0000
}

/// The integer that four little-endian limbs spell.
pub open spec fn limbs_value(l: Seq<u64>) -> nat
    recommends
        l.len() == 4,
{
    (l[0] as nat) + radix() * ((l[1] as nat) + radix() * ((l[2] as nat) + radix() * (l[3] as nat)))
}

/// The field's characteristic,
/// `0x30644e72e131a029b85045b68181585d2833e84879b9709143e1f593f0000001`.
pub open spec fn modulus() -> nat {
    limbs_value(seq![0x43e1f593f0000001u64, 0x2833e84879b97091u64, 0xb85045b68181585du64, 0x30644e72e131a029u64])
}

/// The sum of two elements.
pub open spec fn field_add(a: nat, b: nat) -> nat {
    (a + b) % modulus()
}

/// The difference of two elements.
pub open spec fn field_sub(a: nat, b: nat) -> nat {
    ((a as int - b as int) % (modulus() as int)) as nat
}

/// The product of two elements.
pub open spec fn field_mul(a: nat, b: nat) -> nat {
    (a * b) % modulus()
}

/// `y` is the canonical multiplicative inverse of `d`.
pub open spec fn is_inverse(d: nat, y: nat) -> bool {
    y < modulus() && field_mul(d, y) == 1
}

/// The inverse of `d`, with the inverse of a non-invertible element taken
/// to be zero.
pub open spec fn field_inv(d: nat) -> nat {
    if exists|y: nat| is_inverse(d, y) {
        choose|y: nat| is_inverse(d, y)
    } else {
        0
    }
}

/// The limbs of `v`, most significant first: tuples of these order as the
/// integers do.
pub open spec fn key_of(v: nat) -> (u64, u64, u64, u64) {
    (
        (v / (radix() * radix() * radix())) as u64,
        ((v / (radix() * radix())) % radix()) as u64,
        ((v / radix()) % radix()) as u64,
        (v % radix()) as u64,
    )
}

/// The characteristic lies between `2^64` and `2^256`.
pub proof fn lemma_modulus_bounds()
    ensures
        radix() < modulus() < radix() * radix() * radix() * radix(),
        modulus() > 1,
{
    assert(radix() * radix() * radix() * radix() == radix() * (radix() * (radix() * radix()))) by (nonlinear_arith);
}

/// An element has at most one canonical inverse.
pub proof fn lemma_inverse_unique(d: nat, y: nat, z: nat)
    requires
        is_inverse(d, y),
        is_inverse(d, z),
    ensures
        y == z,
{
    let p = modulus() as int;
    let (d, y, z) = (d as int, y as int, z as int);
    lemma_modulus_bounds();
    // y = y * (d * z) = (y * d) * z = z, all modulo p
    vstd::arithmetic::div_mod::lemma_mul_mod_noop_right(y, d * z, p);
    vstd::arithmetic::div_mod::lemma_mul_mod_noop_left(y * d, z, p);
    assert(y * (d * z) == (y * d) * z) by (nonlinear_arith);
    assert(y * d == d * y) by (nonlinear_arith);
    assert(y * 1 == y && 1 * z == z);
    vstd::arithmetic::div_mod::lemma_small_mod(y as nat, p as nat);
    vstd::arithmetic::div_mod::lemma_small_mod(z as nat, p as nat);
}

/// The inverse of an invertible element is its one canonical inverse.
pub proof fn lemma_field_inv(d: nat, y: nat)
    requires
        is_inverse(d, y),
    ensures
        field_inv(d) == y,
{
    lemma_inverse_unique(d, field_inv(d), y);
}

/// An inverse is canonical.
pub proof fn lemma_field_inv_bound(d: nat)
    ensures
        field_inv(d) < modulus(),
{
    lemma_modulus_bounds();
}

/// Multiplying by one changes no canonical element.
pub proof fn lemma_field_mul_one(a: nat)
    requires
        a < modulus(),
    ensures
        field_mul(a, 1) == a,
        field_mul(1, a) == a,
{
    assert(a * 1 == a && 1 * a == a);
    vstd::arithmetic::div_mod::lemma_small_mod(a, modulus());
}

/// A field element, held by its canonical representative below the modulus.
#[derive(Clone, Copy, Debug)]
pub struct Scalar {
    pub(crate) limbs: [u64; 4],
}

impl View for Scalar {
    type V = nat;

    closed spec fn view(&self) -> nat {
        limbs_value(self.limbs@)
    }
}

impl Scalar {
    /// Every scalar is held by its representative below the modulus.
    #[verifier::type_invariant]
    pub open spec fn canonical(self) -> bool {
        self@ < modulus()
    }

    pub fn zero() -> (r: Scalar)
        ensures
            r@ == 0,
    {
        Scalar { limbs: [0, 0, 0, 0] }
    }

    pub fn one() -> (r: Scalar)
        ensures
            r@ == 1,
    {
        Scalar { limbs: [1, 0, 0, 0] }
    }

    /// The field element of a small integer.
    pub fn from_u64(v: u64) -> (r: Scalar)
        ensures
            r@ == v,
    {
        Scalar { limbs: [v, 0, 0, 0] }
    }

    /// The scalar with the given little-endian limbs, if they are canonical.
    pub fn from_limbs(limbs: [u64; 4]) -> (r: Option<Scalar>)
        ensures
            r is Some <==> limbs_value(limbs@) < modulus(),
            r matches Some(s) ==> s@ == limbs_value(limbs@),
    {
        let below = if limbs[3] != 0x30644e72e131a029u64 {
            limbs[3] < 0x30644e72e131a029u64
        } else if limbs[2] != 0xb85045b68181585du64 {
            limbs[2] < 0xb85045b68181585du64
        } else if limbs[1] != 0x2833e84879b97091u64 {
            limbs[1] < 0x2833e84879b97091u64
        } else {
            limbs[0] < 0x43e1f593f0000001u64
        };
        if below {
            Some(Scalar { limbs })
        } else {
            None
        }
    }

    /// The canonical little-endian limbs.
    pub fn to_limbs(&self) -> (r: [u64; 4])
        ensures
            limbs_value(r@) == self@,
    {
        self.limbs
    }

    /// The limbs, most significant first: the key by which scalars are
    /// ordered and found again.
    pub fn key(&self) -> (r: (u64, u64, u64, u64))
        ensures
            r == key_of(self@),
    {
        proof {
            let (a, b, c, d) = (self.limbs[0] as nat, self.limbs[1] as nat, self.limbs[2] as nat, self.limbs[3] as nat);
            let r = radix();
            assert(self@ == a + r * (b + r * (c + r * d)));
            assert((a + r * (b + r * (c + r * d))) % r == a && (a + r * (b + r * (c + r * d))) / r == b + r * (c + r * d)) by (nonlinear_arith)
                requires a < r, r > 0;
            assert((b + r * (c + r * d)) % r == b && (b + r * (c + r * d)) / r == c + r * d) by (nonlinear_arith)
                requires b < r, r > 0;
            assert((c + r * d) % r == c && (c + r * d) / r == d) by (nonlinear_arith)
                requires c < r, r > 0;
            assert(self@ / (r * r) == (self@ / r) / r) by (nonlinear_arith)
                requires r > 0;
            assert(self@ / (r * r * r) == (self@ / (r * r)) / r) by (nonlinear_arith)
                requires r > 0;
        }
        (self.limbs[3], self.limbs[2], self.limbs[1], self.limbs[0])
    }

    pub fn is_zero(&self) -> (r: bool)
        ensures
            r == (self@ == 0),
    {
        self.limbs[0] == 0 && self.limbs[1] == 0 && self.limbs[2] == 0 && self.limbs[3] == 0
    }

    /// Whether two scalars are the same field element.
    pub fn same(&self, other: &Scalar) -> (r: bool)
        ensures
            r == (self@ == other@),
    {
        proof {
            let r = radix();
            let (a, b, c, d) = (self.limbs[0] as nat, self.limbs[1] as nat, self.limbs[2] as nat, self.limbs[3] as nat);
            let (e, f, g, h) = (other.limbs[0] as nat, other.limbs[1] as nat, other.limbs[2] as nat, other.limbs[3] as nat);
            assert(a + r * (b + r * (c + r * d)) == e + r * (f + r * (g + r * h)) ==> a == e && b == f && c == g && d == h) by (nonlinear_arith)
                requires a < r, b < r, c < r, e < r, f < r, g < r, r > 0;
        }
        self.limbs[0] == other.limbs[0] && self.limbs[1] == other.limbs[1] && self.limbs[2]
            == other.limbs[2] && self.limbs[3] == other.limbs[3]
    }

    /// The difference `self - rhs` in the field.
    ///
    /// Trusted: `Fr::from_raw` of halo2curves takes canonical limbs to the
    /// element they spell, `Sub::sub` of `Fr` is subtraction modulo the
    /// characteristic, and the conversion of an `Fr` into `[u64; 4]` gives
    /// its canonical limbs.
    #[verifier::external_body]
    pub(crate) fn minus(&self, rhs: &Scalar) -> (r: Scalar)
        ensures
            r@ == field_sub(self@, rhs@),
    {
        Scalar { limbs: (Fr::from_raw(self.limbs) - Fr::from_raw(rhs.limbs)).into() }
    }
}

} // verus!
