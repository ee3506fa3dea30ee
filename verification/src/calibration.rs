//! Calibration of the lookup bit-width and the row-count exponent.

use vstd::arithmetic::power2::{
    lemma_pow2_pos, lemma_pow2_strictly_increases, lemma_pow2_unfold, pow2,
};
use vstd::prelude::*;

verus! {

/// Rows that the proof system keeps for itself; they are added to the
/// constraint count before a row-count logarithm is taken.
pub const ASSUMED_BLINDING_FACTORS: usize = 6;

/// Largest row-count exponent of the public parameters: two below the
/// two-adicity of the BN254 scalar field.
pub const MAX_PUBLIC_SRS: u32 = 26;

/// The least exponent `k` with `x <= 2^k`; zero for every `x <= 1`.
pub open spec fn ceil_log2(x: int) -> nat
    decreases x,
{
    if x <= 1 {
        0
    } else {
        1 + ceil_log2((x + 1) / 2)
    }
}

/// `k` is the least exponent with `x <= 2^k`.
pub open spec fn is_ceil_log2(x: int, k: nat) -> bool {
    &&& x <= pow2(k)
    &&& k > 0 ==> pow2((k - 1) as nat) < x
}

/// `ceil_log2` is characterised by `is_ceil_log2`: it meets it, and nothing
/// else does.
pub proof fn lemma_ceil_log2_is_least(x: int, k: nat)
    ensures
        is_ceil_log2(x, ceil_log2(x)),
        is_ceil_log2(x, k) ==> k == ceil_log2(x),
{
    lemma_ceil_log2_meets(x);
    if is_ceil_log2(x, k) {
        let c = ceil_log2(x);
        if k < c {
            if k < c - 1 {
                lemma_pow2_strictly_increases(k, (c - 1) as nat);
            }
        } else if c < k {
            if c < k - 1 {
                lemma_pow2_strictly_increases(c, (k - 1) as nat);
            }
        }
    }
}

proof fn lemma_ceil_log2_meets(x: int)
    ensures
        is_ceil_log2(x, ceil_log2(x)),
    decreases x,
{
    if x <= 1 {
        lemma_pow2_pos(0);
    } else {
        let h = (x + 1) / 2;
        lemma_ceil_log2_meets(h);
        let c = ceil_log2(h);
        lemma_pow2_unfold(c + 1);
        if c > 0 {
            lemma_pow2_unfold(c);
        } else {
            assert(pow2(0) == 1) by {
                vstd::arithmetic::power2::lemma2_to64();
            }
        }
    }
}

/// Computes `ceil_log2`.
pub fn ceil_log2_of(x: u128) -> (k: u32)
    ensures
        k == ceil_log2(x as int),
        k <= 128,
{
    let mut k: u32 = 0;
    let mut p: u128 = 1;
    proof {
        vstd::arithmetic::power2::lemma2_to64();
    }
    while p < x && k < 127
        invariant
            k <= 127,
            p == pow2(k as nat),
            k > 0 ==> pow2((k - 1) as nat) < x,
        decreases 127 - k,
    {
        proof {
            lemma_pow2_unfold((k + 1) as nat);
            lemma_pow2_strictly_increases(k as nat, 127);
            lemma_pow2_127();
        }
        p = p * 2;
        k = k + 1;
    }
    if p < x {
        proof {
            lemma_pow2_unfold(128);
            lemma_pow2_127();
            assert(is_ceil_log2(x as int, 128));
            lemma_ceil_log2_is_least(x as int, 128);
        }
        128
    } else {
        proof {
            assert(is_ceil_log2(x as int, k as nat));
            lemma_ceil_log2_is_least(x as int, k as nat);
        }
        k
    }
}

/// The value of `2^127`, the magnitude of the least signed 128-bit integer.
pub proof fn lemma_pow2_127()
    ensures
        pow2(127) == 0x8000_0000_0000_0000_0000_0000_0000_0000,
{
    vstd::arithmetic::power2::lemma2_to64();
    vstd::arithmetic::power2::lemma_pow2_adds(64, 63);
    vstd::arithmetic::power2::lemma_pow2_adds(32, 31);
    assert(pow2(63) == 0x8000_0000_0000_0000) by {
        assert(pow2(32) * pow2(31) == 0x8000_0000_0000_0000) by (nonlinear_arith)
            requires
                pow2(32) == 0x1_0000_0000,
                pow2(31) == 0x8000_0000,
        ;
    }
    assert(pow2(64) * pow2(63) == 0x8000_0000_0000_0000_0000_0000_0000_0000) by (nonlinear_arith)
        requires
            pow2(64) == 0x1_0000_0000_0000_0000,
            pow2(63) == 0x8000_0000_0000_0000,
    ;
}

/// Whether `max` lies above the lookup range `2^(bits-1)`. With no bits at
/// all the range is a half, which every positive value exceeds.
pub open spec fn exceeds_lookup_range(max: int, bits: nat) -> bool {
    if bits == 0 {
        max >= 1
    } else {
        max > pow2((bits - 1) as nat)
    }
}

/// The bit-width that a largest lookup input of `max` asks for.
pub open spec fn required_bits(max: int) -> nat {
    ceil_log2(max) + 1
}

/// The row-count exponent that `num_constraints` rows and the blinding rows
/// ask for.
pub open spec fn rows_for_constraints(num_constraints: nat) -> nat {
    ceil_log2(num_constraints + ASSUMED_BLINDING_FACTORS) + 1
}

/// The final row-count exponent: enough for the lookup table and for the
/// constraints, never under `ASSUMED_BLINDING_FACTORS + 1`, never over
/// `MAX_PUBLIC_SRS`.
pub open spec fn settled_logrows(max: int, num_constraints: nat) -> nat {
    let for_lookup = required_bits(max) + 1;
    let for_rows = rows_for_constraints(num_constraints);
    let wanted = if for_lookup >= for_rows {
        for_lookup
    } else {
        for_rows
    };
    let floor = (ASSUMED_BLINDING_FACTORS + 1) as nat;
    let raised = if wanted >= floor {
        wanted
    } else {
        floor
    };
    if raised <= MAX_PUBLIC_SRS {
        raised
    } else {
        MAX_PUBLIC_SRS as nat
    }
}

/// What one forward pass tells the calibration to do next.
#[derive(Clone, Copy, Debug, PartialEq, Eq, Structural)]
pub enum CalibrationStep {
    /// The lookup range was too small: run again with these values.
    Widen { bits: usize, logrows: u32 },
    /// The lookup range was sufficient: these values are final.
    Settle { bits: usize, logrows: u32 },
    /// No bit-width under the structural maximum holds the value.
    Fail { estimate: usize },
}

/// The decision after a forward pass whose largest lookup input was `max`,
/// taken with a lookup range of `bits` bits and `num_constraints` rows.
pub open spec fn calibration_step_for(
    bits: nat,
    num_constraints: nat,
    max: int,
) -> CalibrationStep {
    let needed = required_bits(max);
    if exceeds_lookup_range(max, bits) {
        if needed <= MAX_PUBLIC_SRS - 1 {
            CalibrationStep::Widen { bits: needed as usize, logrows: (needed + 1) as u32 }
        } else {
            CalibrationStep::Fail { estimate: needed as usize }
        }
    } else {
        CalibrationStep::Settle {
            bits: needed as usize,
            logrows: settled_logrows(max, num_constraints) as u32,
        }
    }
}

/// A value fits under `2^j` exactly when its `ceil_log2` is at most `j`.
pub proof fn lemma_ceil_log2_bound(x: int, j: nat)
    ensures
        x <= pow2(j) <==> ceil_log2(x) <= j,
{
    let c = ceil_log2(x);
    lemma_ceil_log2_is_least(x, c);
    if c <= j {
        if c < j {
            lemma_pow2_strictly_increases(c, j);
        }
    } else {
        if j < c - 1 {
            lemma_pow2_strictly_increases(j, (c - 1) as nat);
        }
    }
}

/// `ceil_log2` of a value that fits in 128 bits is at most 128.
pub proof fn lemma_ceil_log2_u128(x: int)
    requires
        x <= u128::MAX,
    ensures
        ceil_log2(x) <= 128,
{
    lemma_pow2_127();
    lemma_pow2_unfold(128);
    lemma_ceil_log2_bound(x, 128);
}

/// Decides the next calibration step from the current bit-width, the
/// constraint count and the largest lookup input of a forward pass.
pub fn calibration_step(bits: usize, num_constraints: usize, max_lookup_input: i128) -> (step:
    CalibrationStep)
    ensures
        step == calibration_step_for(bits as nat, num_constraints as nat, max_lookup_input as int),
{
    let magnitude: u128 = if max_lookup_input <= 0 {
        0
    } else {
        max_lookup_input as u128
    };
    let log: u32 = ceil_log2_of(magnitude);
    assert(log == ceil_log2(max_lookup_input as int));
    proof {
        lemma_pow2_127();
        lemma_ceil_log2_bound(max_lookup_input as int, 127);
    }
    assert(log <= 127);
    let needed: usize = log as usize + 1;
    let exceeds = if max_lookup_input <= 0 {
        false
    } else if bits == 0 {
        true
    } else {
        log as usize >= bits
    };
    proof {
        if bits > 0 {
            lemma_ceil_log2_bound(max_lookup_input as int, (bits - 1) as nat);
            if max_lookup_input <= 0 {
                lemma_pow2_pos((bits - 1) as nat);
            }
        }
    }
    assert(exceeds == exceeds_lookup_range(max_lookup_input as int, bits as nat));
    if exceeds {
        if needed <= (MAX_PUBLIC_SRS - 1) as usize {
            CalibrationStep::Widen { bits: needed, logrows: (needed + 1) as u32 }
        } else {
            CalibrationStep::Fail { estimate: needed }
        }
    } else {
        let rows_log: u32 = ceil_log2_of(
            num_constraints as u128 + ASSUMED_BLINDING_FACTORS as u128,
        );
        let for_rows: u32 = rows_log + 1;
        let for_lookup: u32 = needed as u32 + 1;
        let mut logrows: u32 = if for_lookup >= for_rows {
            for_lookup
        } else {
            for_rows
        };
        if logrows < ASSUMED_BLINDING_FACTORS as u32 + 1 {
            logrows = ASSUMED_BLINDING_FACTORS as u32 + 1;
        }
        if logrows > MAX_PUBLIC_SRS {
            logrows = MAX_PUBLIC_SRS;
        }
        CalibrationStep::Settle { bits: needed, logrows }
    }
}

/// Every widening step strictly raises the bit-width, and never past
/// `MAX_PUBLIC_SRS - 1`.
pub proof fn lemma_widening_raises_bits(bits: nat, num_constraints: nat, max: int)
    requires
        calibration_step_for(bits, num_constraints, max) is Widen,
    ensures
        calibration_step_for(bits, num_constraints, max)->Widen_bits > bits,
        calibration_step_for(bits, num_constraints, max)->Widen_bits <= MAX_PUBLIC_SRS - 1,
        calibration_step_for(bits, num_constraints, max)->Widen_logrows
            == calibration_step_for(bits, num_constraints, max)->Widen_bits + 1,
{
    if bits > 0 {
        lemma_ceil_log2_bound(max, (bits - 1) as nat);
    }
}

/// A settled bit-width holds the value that it was settled for, and the
/// settled row-count exponent lies between `ASSUMED_BLINDING_FACTORS + 1`
/// and `MAX_PUBLIC_SRS`.
pub proof fn lemma_settled_range_suffices(bits: nat, num_constraints: nat, max: int)
    requires
        max <= i128::MAX,
        calibration_step_for(bits, num_constraints, max) is Settle,
    ensures
        !exceeds_lookup_range(
            max,
            calibration_step_for(bits, num_constraints, max)->Settle_bits as nat,
        ),
        calibration_step_for(bits, num_constraints, max)->Settle_bits == required_bits(max),
        ASSUMED_BLINDING_FACTORS + 1 <= calibration_step_for(
            bits,
            num_constraints,
            max,
        )->Settle_logrows <= MAX_PUBLIC_SRS,
{
    lemma_ceil_log2_u128(max);
    lemma_ceil_log2_bound(max, ceil_log2(max));
}

/// Where calibration ends when every forward pass reports the same largest
/// lookup input `max`: the first step that does not widen.
pub open spec fn calibration_outcome(bits: nat, num_constraints: nat, max: int) -> CalibrationStep
    decreases MAX_PUBLIC_SRS - bits,
{
    let step = calibration_step_for(bits, num_constraints, max);
    if step is Widen && bits < step->Widen_bits <= MAX_PUBLIC_SRS - 1 {
        calibration_outcome(step->Widen_bits as nat, num_constraints, max)
    } else {
        step
    }
}

/// Calibration against a fixed largest lookup input ends after at most one
/// widening. It ends with a bit-width whose range holds the value, or it
/// fails, and it fails exactly when the range at the start was too small and
/// the value asks for more than `MAX_PUBLIC_SRS - 1` bits.
pub proof fn lemma_calibration_outcome(bits: nat, num_constraints: nat, max: int)
    requires
        max <= i128::MAX,
    ensures
        !(calibration_outcome(bits, num_constraints, max) is Widen),
        calibration_outcome(bits, num_constraints, max) is Settle ==> {
            let end = calibration_outcome(bits, num_constraints, max);
            &&& end->Settle_bits == required_bits(max)
            &&& !exceeds_lookup_range(max, end->Settle_bits as nat)
            &&& end->Settle_logrows == settled_logrows(max, num_constraints)
        },
        calibration_outcome(bits, num_constraints, max) is Fail <==> exceeds_lookup_range(max, bits)
            && required_bits(max) > MAX_PUBLIC_SRS - 1,
        calibration_outcome(bits, num_constraints, max) is Fail ==> calibration_outcome(
            bits,
            num_constraints,
            max,
        )->estimate == required_bits(max),
{
    lemma_ceil_log2_u128(max);
    lemma_ceil_log2_bound(max, ceil_log2(max));
    let step = calibration_step_for(bits, num_constraints, max);
    if step is Widen {
        lemma_widening_raises_bits(bits, num_constraints, max);
        let wider = step->Widen_bits as nat;
        assert(wider == required_bits(max));
        let again = calibration_step_for(wider, num_constraints, max);
        assert(!exceeds_lookup_range(max, wider));
        assert(again is Settle);
        assert(calibration_outcome(wider, num_constraints, max) == again);
    }
}

} // verus!
