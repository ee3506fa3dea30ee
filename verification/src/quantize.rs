//! Quantization of binary floating-point values to fixed-point integers: a
//! value `v` is held at the scale `s` as `v * 2^s`, rounded to the nearest
//! integer, ties away from zero.

use crate::calibration::lemma_pow2_127;
use vstd::arithmetic::div_mod::lemma_fundamental_div_mod;
use vstd::arithmetic::power2::{
    lemma_pow2_pos, lemma_pow2_strictly_increases, lemma_pow2_unfold, pow2,
};
use vstd::prelude::*;

verus! {

/// A finite binary number: `mantissa * 2^exponent`, negated where
/// `negative`. Every finite floating-point value is one.
#[derive(Clone, Copy, Debug, PartialEq, Eq, Structural)]
pub struct Dyadic {
    /// Whether the number is negated.
    pub negative: bool,
    /// The mantissa.
    pub mantissa: u64,
    /// The exponent of two.
    pub exponent: i32,
}

/// Why a value cannot be quantized.
#[derive(Clone, Copy, Debug, PartialEq, Eq, Structural)]
pub enum QuantizeError {
    /// The value is an infinity or not a number.
    NotFinite,
    /// At the scale asked for, the value has more significant bits than a
    /// signed 128-bit integer holds.
    SigBitTruncation,
}

/// `m / d`, rounded to the nearest integer, a half rounded up.
pub open spec fn round_div(m: nat, d: nat) -> nat {
    (2 * m + d) / (2 * d)
}

/// The magnitude of `value * 2^scale`, rounded to the nearest integer, ties
/// away from zero.
pub open spec fn scaled_magnitude(value: Dyadic, scale: u32) -> nat {
    let k = value.exponent + scale;
    if k >= 0 {
        (value.mantissa * pow2(k as nat)) as nat
    } else {
        round_div(value.mantissa as nat, pow2((-k) as nat))
    }
}

/// `value * 2^scale`, rounded to the nearest integer, ties away from zero.
pub open spec fn quantized(value: Dyadic, scale: u32) -> int {
    if value.negative {
        -(scaled_magnitude(value, scale) as int)
    } else {
        scaled_magnitude(value, scale) as int
    }
}

/// The mantissa of `value` with its sign.
pub open spec fn signed_mantissa(value: Dyadic) -> int {
    if value.negative {
        -(value.mantissa as int)
    } else {
        value.mantissa as int
    }
}

/// The quantized value is the scaled value itself where that is an integer,
/// and else differs from it by half a unit at most: taken back to the
/// scale of the value, it is off by no more than `2^-(scale + 1)`.
pub proof fn lemma_quantized_is_nearest(value: Dyadic, scale: u32)
    ensures
        ({
            let k = value.exponent + scale;
            let q = quantized(value, scale);
            let v = signed_mantissa(value);
            if k >= 0 {
                q == v * pow2(k as nat)
            } else {
                let d = pow2((-k) as nat) as int;
                -d <= 2 * (q * d - v) <= d
            }
        }),
{
    let k = value.exponent + scale;
    let m = value.mantissa as int;
    if k >= 0 {
        let p = pow2(k as nat) as int;
        assert((-m) * p == -(m * p)) by (nonlinear_arith);
    } else {
        let d = pow2((-k) as nat) as int;
        lemma_pow2_pos((-k) as nat);
        let r = (2 * m + d) / (2 * d);
        lemma_fundamental_div_mod(2 * m + d, 2 * d);
        let rem = (2 * m + d) % (2 * d);
        assert(0 <= rem < 2 * d);
        assert((2 * d) * r == 2 * (r * d)) by (nonlinear_arith);
        assert((-r) * d == -(r * d)) by (nonlinear_arith);
    }
}

/// `2^e`, for an exponent of at most 127.
pub fn pow2_u128(e: u32) -> (p: u128)
    requires
        e <= 127,
    ensures
        p == pow2(e as nat),
{
    let mut p: u128 = 1;
    let mut i: u32 = 0;
    proof {
        vstd::arithmetic::power2::lemma2_to64();
    }
    while i < e
        invariant
            i <= e <= 127,
            p == pow2(i as nat),
        decreases e - i,
    {
        proof {
            lemma_pow2_unfold((i + 1) as nat);
            lemma_pow2_127();
            if i + 1 < 127 {
                lemma_pow2_strictly_increases((i + 1) as nat, 127);
            }
        }
        p = p * 2;
        i = i + 1;
    }
    p
}

/// The fixed-point integer that stands for `value` at the scale `scale`:
/// `value * 2^scale`, rounded to the nearest integer, ties away from zero.
/// A value that a signed 128-bit integer cannot hold at that scale is
/// refused.
pub fn quantize(value: Dyadic, scale: u32) -> (r: Result<i128, QuantizeError>)
    ensures
        r is Ok <==> i128::MIN <= quantized(value, scale) <= i128::MAX,
        r is Ok ==> r->Ok_0 == quantized(value, scale),
        r is Err ==> r->Err_0 == QuantizeError::SigBitTruncation,
{
    let k: i64 = value.exponent as i64 + scale as i64;
    let m: u128 = value.mantissa as u128;
    proof {
        lemma_pow2_127();
    }
    let magnitude: u128 = if m == 0 {
        proof {
            if k >= 0 {
                assert(0 * pow2(k as nat) == 0) by (nonlinear_arith);
            } else {
                let d = pow2((-k) as nat) as int;
                lemma_pow2_pos((-k) as nat);
                assert(d / (2 * d) == 0) by (nonlinear_arith)
                    requires
                        d > 0,
                ;
            }
        }
        0
    } else if k >= 0 {
        if k > 127 {
            proof {
                lemma_pow2_strictly_increases(127, k as nat);
                assert(m * pow2(k as nat) >= pow2(k as nat)) by (nonlinear_arith)
                    requires
                        m >= 1,
                ;
            }
            return Err(QuantizeError::SigBitTruncation);
        }
        let p = pow2_u128(k as u32);
        match m.checked_mul(p) {
            Some(product) => product,
            None => {
                return Err(QuantizeError::SigBitTruncation);
            },
        }
    } else {
        let j: i64 = -k;
        if j > 64 {
            proof {
                let d = pow2(j as nat) as int;
                vstd::arithmetic::power2::lemma2_to64();
                lemma_pow2_unfold(65);
                if j > 65 {
                    lemma_pow2_strictly_increases(65, j as nat);
                }
                assert((2 * m + d) / (2 * d) == 0) by (nonlinear_arith)
                    requires
                        0 <= 2 * m < d,
                ;
            }
            0
        } else {
            let d = pow2_u128(j as u32);
            proof {
                vstd::arithmetic::power2::lemma2_to64();
                lemma_pow2_pos(j as nat);
                if j < 64 {
                    lemma_pow2_strictly_increases(j as nat, 64);
                }
            }
            (2 * m + d) / (2 * d)
        }
    };
    assert(magnitude == scaled_magnitude(value, scale));
    if !value.negative {
        if magnitude <= i128::MAX as u128 {
            Ok(magnitude as i128)
        } else {
            Err(QuantizeError::SigBitTruncation)
        }
    } else {
        if magnitude < 0x8000_0000_0000_0000_0000_0000_0000_0000 {
            Ok(-(magnitude as i128))
        } else if magnitude == 0x8000_0000_0000_0000_0000_0000_0000_0000 {
            Ok(i128::MIN)
        } else {
            Err(QuantizeError::SigBitTruncation)
        }
    }
}

/// Whether the sign bit of the double-precision bit pattern `bits` is set.
pub open spec fn f64_sign(bits: u64) -> bool {
    bits / 0x8000_0000_0000_0000 == 1
}

/// The exponent field of the double-precision bit pattern `bits`: the
/// eleven bits below the sign.
pub open spec fn f64_exponent_field(bits: u64) -> nat {
    ((bits / 0x10_0000_0000_0000) % 0x800) as nat
}

/// The fraction field of the double-precision bit pattern `bits`: its low
/// fifty-two bits.
pub open spec fn f64_fraction(bits: u64) -> nat {
    (bits % 0x10_0000_0000_0000) as nat
}

/// The number that the double-precision bit pattern `bits` stands for,
/// where it is finite. An exponent field of all ones marks infinities and
/// what is not a number; one of zero marks numbers without the hidden bit.
pub open spec fn decoded(bits: u64) -> Option<Dyadic> {
    let field = f64_exponent_field(bits);
    if field == 0x7ff {
        None
    } else if field == 0 {
        Some(
            Dyadic {
                negative: f64_sign(bits),
                mantissa: f64_fraction(bits) as u64,
                exponent: (-1074) as i32,
            },
        )
    } else {
        Some(
            Dyadic {
                negative: f64_sign(bits),
                mantissa: (f64_fraction(bits) + 0x10_0000_0000_0000) as u64,
                exponent: (field - 1075) as i32,
            },
        )
    }
}

/// Reads the double-precision bit pattern `bits` as a number, where it is
/// finite.
pub fn decode_f64(bits: u64) -> (r: Option<Dyadic>)
    ensures
        r == decoded(bits),
{
    let negative = (bits >> 63) == 1;
    let field: u64 = (bits >> 52) & 0x7ff;
    let fraction: u64 = bits & 0xf_ffff_ffff_ffff;
    assert(bits >> 63 == bits / 0x8000_0000_0000_0000) by (bit_vector);
    assert((bits >> 52) & 0x7ff == (bits / 0x10_0000_0000_0000) % 0x800) by (bit_vector);
    assert(bits & 0xf_ffff_ffff_ffff == bits % 0x10_0000_0000_0000) by (bit_vector);
    if field == 0x7ff {
        None
    } else if field == 0 {
        Some(Dyadic { negative, mantissa: fraction, exponent: -1074 })
    } else {
        Some(
            Dyadic {
                negative,
                mantissa: fraction + 0x10_0000_0000_0000,
                exponent: (field as i32) - 1075,
            },
        )
    }
}

/// The fixed-point integer that stands, at the scale `scale`, for the
/// number with the double-precision bit pattern `bits`.
pub fn quantize_bits(bits: u64, scale: u32) -> (r: Result<i128, QuantizeError>)
    ensures
        match decoded(bits) {
            None => r == Err::<i128, QuantizeError>(QuantizeError::NotFinite),
            Some(value) => {
                &&& r is Ok <==> i128::MIN <= quantized(value, scale) <= i128::MAX
                &&& r is Ok ==> r->Ok_0 == quantized(value, scale)
                &&& r is Err ==> r->Err_0 == QuantizeError::SigBitTruncation
            },
        },
{
    match decode_f64(bits) {
        None => Err(QuantizeError::NotFinite),
        Some(value) => quantize(value, scale),
    }
}

} // verus!
