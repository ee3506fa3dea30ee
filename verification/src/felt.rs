//! Elements of the BN254 scalar field in canonical form, and the encoding of
//! signed fixed-point integers as such elements.

use halo2curves::bn256::Fr;
use halo2curves::ff::PrimeField;
use vstd::prelude::*;

verus! {

/// The low 128 bits of the field's characteristic.
pub const MODULUS_LO: u128 = 0x2833e84879b9709143e1f593f0000001;

/// The high 128 bits of the field's characteristic.
pub const MODULUS_HI: u128 = 0x30644e72e131a029b85045b68181585d;

/// `2^128`, the weight of the high half of an element.
pub open spec fn half_weight() -> nat {
    (u128::MAX as nat) + 1
}

/// The number that the two halves `lo` and `hi` stand for.
pub open spec fn halves_value(lo: u128, hi: u128) -> nat {
    lo as nat + hi as nat * half_weight()
}

/// The characteristic of the BN254 scalar field.
pub open spec fn modulus() -> nat {
    halves_value(MODULUS_LO, MODULUS_HI)
}

/// The field element that stands for the signed integer `x`: `x` itself when
/// it is not negative, else the characteristic minus its magnitude.
pub open spec fn signed_residue(x: int) -> nat
    recommends
        -modulus() < x < modulus(),
{
    if x >= 0 {
        x as nat
    } else {
        (modulus() + x) as nat
    }
}

/// The additive inverse of the canonical value `v`.
pub open spec fn negated(v: nat) -> nat
    recommends
        v < modulus(),
{
    if v == 0 {
        0
    } else {
        (modulus() - v) as nat
    }
}

/// Two pairs of halves compare as their values do: by the high half first.
pub proof fn lemma_halves_order(lo1: u128, hi1: u128, lo2: u128, hi2: u128)
    ensures
        halves_value(lo1, hi1) < halves_value(lo2, hi2) <==> hi1 < hi2 || (hi1 == hi2 && lo1
            < lo2),
        halves_value(lo1, hi1) == halves_value(lo2, hi2) <==> hi1 == hi2 && lo1 == lo2,
{
    let w = half_weight() as int;
    assert(hi1 < hi2 ==> (hi1 + 1) * w <= hi2 * w) by (nonlinear_arith)
        requires
            w > 0,
    ;
    assert(hi2 < hi1 ==> (hi2 + 1) * w <= hi1 * w) by (nonlinear_arith)
        requires
            w > 0,
    ;
    assert((hi1 + 1) * w == hi1 * w + w) by (nonlinear_arith);
    assert((hi2 + 1) * w == hi2 * w + w) by (nonlinear_arith);
}

/// An element of the BN254 scalar field, held as the two 128-bit halves of
/// its canonical value, which is below the characteristic.
#[derive(Clone, Copy, Debug, PartialEq, Eq, Structural)]
pub struct Felt {
    lo: u128,
    hi: u128,
}

/// The canonical halves of `Fr::from_u128(v)`, as `Fr::to_bytes` writes them
/// in little-endian order. The element stands for `v` itself, which is below
/// the characteristic, so the low half is `v` and the high half is zero.
#[verifier::external_body]
fn fr_from_u128(v: u128) -> (r: (u128, u128))
    ensures
        r.0 == v,
        r.1 == 0,
{
    let out = Fr::from_u128(v).to_bytes();
    let (lo, hi) = out.split_at(16);
    (u128::from_le_bytes(lo.try_into().unwrap()), u128::from_le_bytes(hi.try_into().unwrap()))
}

/// The canonical halves of the negation, by `Neg` of `Fr`, of the element
/// that `Fr::from_bytes` reads from the canonical halves `lo` and `hi`. The
/// additive inverse of zero is zero, that of any other value is the
/// characteristic minus the value.
#[verifier::external_body]
fn fr_neg(lo: u128, hi: u128) -> (r: (u128, u128))
    requires
        halves_value(lo, hi) < modulus(),
    ensures
        halves_value(r.0, r.1) == negated(halves_value(lo, hi)),
{
    let mut bytes = [0u8; 32];
    bytes[..16].copy_from_slice(&lo.to_le_bytes());
    bytes[16..].copy_from_slice(&hi.to_le_bytes());
    let out = (-Fr::from_bytes(&bytes).unwrap()).to_bytes();
    let (lo, hi) = out.split_at(16);
    (u128::from_le_bytes(lo.try_into().unwrap()), u128::from_le_bytes(hi.try_into().unwrap()))
}

impl Felt {
    #[verifier::type_invariant]
    spec fn canonical(self) -> bool {
        halves_value(self.lo, self.hi) < modulus()
    }

    /// The canonical value of the element, below the characteristic.
    pub closed spec fn value(self) -> nat {
        halves_value(self.lo, self.hi)
    }

    /// The element zero.
    pub fn zero() -> (r: Felt)
        ensures
            r.value() == 0,
    {
        Felt { lo: 0, hi: 0 }
    }

    /// The element that stands for `v`.
    pub fn from_u128(v: u128) -> (r: Felt)
        ensures
            r.value() == v,
    {
        let (lo, hi) = fr_from_u128(v);
        Felt { lo, hi }
    }

    /// The element with the canonical value `lo + hi * 2^128`, where that
    /// value is below the characteristic.
    pub fn from_halves(lo: u128, hi: u128) -> (r: Option<Felt>)
        ensures
            r is Some <==> halves_value(lo, hi) < modulus(),
            r is Some ==> r->0.value() == halves_value(lo, hi),
    {
        proof {
            lemma_halves_order(lo, hi, MODULUS_LO, MODULUS_HI);
        }
        if hi < MODULUS_HI || (hi == MODULUS_HI && lo < MODULUS_LO) {
            Some(Felt { lo, hi })
        } else {
            None
        }
    }

    /// The low and the high 128 bits of the canonical value.
    pub fn halves(&self) -> (r: (u128, u128))
        ensures
            halves_value(r.0, r.1) == self.value(),
            self.value() < modulus(),
    {
        proof {
            use_type_invariant(self);
        }
        (self.lo, self.hi)
    }

    /// The additive inverse.
    pub fn neg(&self) -> (r: Felt)
        ensures
            r.value() == negated(self.value()),
            self.value() < modulus(),
    {
        proof {
            use_type_invariant(self);
        }
        let (lo, hi) = fr_neg(self.lo, self.hi);
        Felt { lo, hi }
    }

}

/// Two elements with the same canonical value are the same element.
pub proof fn lemma_value_determines_element(a: Felt, b: Felt)
    requires
        a.value() == b.value(),
    ensures
        a == b,
{
    lemma_halves_order(a.lo, a.hi, b.lo, b.hi);
}

/// Encodes a signed fixed-point integer as a field element: a value that is
/// not negative stands for itself, a negative one for the characteristic
/// minus its magnitude.
pub fn i128_to_felt(x: i128) -> (r: Felt)
    ensures
        r.value() == signed_residue(x as int),
{
    if x >= 0 {
        Felt::from_u128(x as u128)
    } else {
        let size: u128 = if x == i128::MIN {
            0x8000_0000_0000_0000_0000_0000_0000_0000
        } else {
            (-x) as u128
        };
        Felt::from_u128(size).neg()
    }
}

} // verus!
