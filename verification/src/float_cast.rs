//! The integer that `f32 as u32` gives, computed from the float's IEEE 754
//! bit pattern: truncation toward zero, saturating at both ends, NaN to 0.

use vstd::prelude::*;
use vstd::arithmetic::power2::{pow2, lemma_pow2_adds, lemma_pow2_pos, lemma_pow2_strictly_increases, lemma2_to64};
use vstd::arithmetic::div_mod::{lemma_div_denominator, lemma_div_multiples_vanish};
use vstd::arithmetic::mul::lemma_mul_is_commutative;
use vstd::bits::{lemma_u64_shl_is_mul, lemma_u64_shr_is_div};

verus! {

/// The sign bit of a single-precision bit pattern.
pub open spec fn f32_negative(bits: u32) -> bool {
    bits >= 0x8000_0000
}

/// The biased exponent field (bits 23 to 30).
pub open spec fn f32_exponent(bits: u32) -> int {
    (bits / 0x80_0000) as int % 0x100
}

/// The fraction field (bits 0 to 22).
pub open spec fn f32_fraction(bits: u32) -> int {
    bits as int % 0x80_0000
}

/// The value of `f as u32` for the `f32` whose bits are `bits`: NaN gives 0; a
/// negative value, and any value below 1, gives 0; otherwise the value
/// truncated toward zero, or `u32::MAX` where that does not fit (infinity too).
/// A normal number's value is `(2^23 + fraction) * 2^(exponent - 150)`, so its
/// integer part is `(2^23 + fraction) * 2^exponent / 2^150`.
pub open spec fn f32_bits_as_u32(bits: u32) -> u32 {
    let exponent = f32_exponent(bits);
    let fraction = f32_fraction(bits);
    if exponent == 0xff && fraction != 0 {
        0
    } else if f32_negative(bits) {
        0
    } else if exponent == 0xff {
        u32::MAX
    } else if exponent == 0 {
        0
    } else {
        let whole = (0x80_0000 + fraction) * pow2(exponent as nat) / (pow2(150) as int);
        if whole > u32::MAX {
            u32::MAX
        } else {
            whole as u32
        }
    }
}

proof fn lemma_fields(bits: u32)
    ensures
        (bits >> 23) & 0xff == f32_exponent(bits),
        bits & 0x7f_ffff == f32_fraction(bits),
        (bits >> 31 == 1) == f32_negative(bits),
{
    assert((bits >> 23) & 0xff == (bits / 0x80_0000) % 0x100) by (bit_vector);
    assert(bits & 0x7f_ffff == bits % 0x80_0000) by (bit_vector);
    assert((bits >> 31 == 1) == (bits >= 0x8000_0000)) by (bit_vector);
}

/// `f as u32` for the `f32` whose IEEE 754 bit pattern is `bits`.
pub fn f32_bits_to_u32(bits: u32) -> (r: u32)
    ensures
        r == f32_bits_as_u32(bits),
{
    proof {
        lemma_fields(bits);
    }
    let exponent = (bits >> 23) & 0xff;
    let fraction = bits & 0x7f_ffff;
    if exponent == 0xff && fraction != 0 {
        return 0;
    }
    if bits >> 31 == 1 {
        return 0;
    }
    if exponent == 0xff {
        return u32::MAX;
    }
    if exponent == 0 {
        return 0;
    }
    let m: u64 = (0x80_0000 + fraction) as u64;
    let ghost e = exponent as nat;
    let ghost whole = (m * pow2(e)) as int / (pow2(150) as int);
    proof {
        lemma2_to64();
        lemma_pow2_pos(150);
        lemma_pow2_pos(e);
        assert(whole == (0x80_0000 + f32_fraction(bits)) * pow2(f32_exponent(bits) as nat) / (pow2(150) as int));
    }
    if exponent < 127 {
        proof {
            lemma_pow2_adds(24, 126);
            if e < 126 {
                lemma_pow2_strictly_increases(e, 126);
            }
            assert(whole == 0) by (nonlinear_arith)
                requires
                    whole == (m * pow2(e)) as int / (pow2(150) as int),
                    m < 0x100_0000,
                    0 < pow2(e) <= pow2(126),
                    pow2(150) == 0x100_0000 * pow2(126),
            ;
        }
        return 0;
    }
    if exponent >= 159 {
        proof {
            lemma_pow2_adds(9, 150);
            if e > 159 {
                lemma_pow2_strictly_increases(159, e);
            }
            assert(whole >= 0x1_0000_0000) by (nonlinear_arith)
                requires
                    whole == (m * pow2(e)) as int / (pow2(150) as int),
                    m >= 0x80_0000,
                    pow2(e) >= pow2(159),
                    pow2(159) == 0x200 * pow2(150),
                    pow2(150) > 0,
            ;
        }
        return u32::MAX;
    }
    if exponent >= 150 {
        let shift: u64 = (exponent - 150) as u64;
        proof {
            let k = (e - 150) as nat;
            lemma_pow2_adds(k, 150);
            if k < 8 {
                lemma_pow2_strictly_increases(k, 8);
            }
            assert(m * pow2(k) < 0x1_0000_0000) by (nonlinear_arith)
                requires
                    m < 0x100_0000,
                    0 < pow2(k) <= 0x100,
            ;
            lemma_u64_shl_is_mul(m, shift);
            assert(whole == m * pow2(k)) by (nonlinear_arith)
                requires
                    whole == (m * pow2(e)) as int / (pow2(150) as int),
                    pow2(e) == pow2(k) * pow2(150),
                    pow2(150) > 0,
            ;
        }
        (m << shift) as u32
    } else {
        let shift: u64 = (150 - exponent) as u64;
        proof {
            let k = (150 - e) as nat;
            lemma_pow2_adds(e, k);
            lemma_pow2_pos(k);
            lemma_u64_shr_is_div(m, shift);
            lemma_div_denominator((m * pow2(e)) as int, pow2(e) as int, pow2(k) as int);
            lemma_mul_is_commutative(m as int, pow2(e) as int);
            lemma_div_multiples_vanish(m as int, pow2(e) as int);
            assert(m as int / (pow2(k) as int) <= m) by (nonlinear_arith)
                requires
                    pow2(k) > 0,
            ;
        }
        (m >> shift) as u32
    }
}

} // verus!
