//! `f32` values on their IEEE 754 bit patterns: the `f32` that `as f32` gives
//! for an `i32` or an `f64` (round to nearest, ties to even), and `f32`
//! equality (`NaN` equals nothing, the two zeros are equal).

use vstd::prelude::*;
use vstd::arithmetic::power2::{pow2, lemma_pow2_adds, lemma_pow2_pos, lemma_pow2_strictly_increases, lemma2_to64};
use vstd::arithmetic::div_mod::{lemma_fundamental_div_mod, lemma_small_mod};
use vstd::bits::{lemma_u64_shl_is_mul, lemma_u64_shr_is_div};
use crate::event::Number;

verus! {

/// `n / 2^k` rounded to the nearest integer, a tie going to the even one.
pub open spec fn round_half_even(n: nat, k: nat) -> nat {
    let d = pow2(k);
    let q = n / d;
    let r = n % d;
    if k == 0 {
        n
    } else if 2 * r > d {
        q + 1
    } else if 2 * r < d {
        q
    } else if q % 2 == 0 {
        q
    } else {
        q + 1
    }
}

/// The exponent of the highest set bit of `m` (for `m >= 1`).
pub open spec fn floor_log2(m: nat) -> nat
    decreases m,
{
    if m <= 1 {
        0
    } else {
        1 + floor_log2(m / 2)
    }
}

/// The bit pattern of the non-negative `f32` nearest to `m * 2^e` (for
/// `m >= 1`): the value's binade `t` (at least -126, the subnormal range), its
/// significand `q` in units of `2^(t - 23)` rounded half to even, encoded as
/// `(t + 126) * 2^23 + q` (a significand that rounds up to `2^24` carries into
/// the exponent); infinity where that reaches the infinity pattern or `t`
/// exceeds 127.
pub open spec fn round_to_f32(m: nat, e: int) -> u32 {
    let x = floor_log2(m) + e;
    let t = if x < -126 {
        -126
    } else {
        x
    };
    if t > 127 {
        0x7f80_0000
    } else {
        let shift = t - 23 - e;
        let q: nat = if shift <= 0 {
            m * pow2((-shift) as nat)
        } else {
            round_half_even(m, shift as nat)
        };
        let mag = (t + 126) * 0x80_0000 + q;
        if mag >= 0x7f80_0000 {
            0x7f80_0000
        } else {
            mag as u32
        }
    }
}

/// A magnitude's bit pattern with the sign bit set when `negative`.
pub open spec fn with_sign(negative: bool, mag: u32) -> u32 {
    if negative {
        (mag + 0x8000_0000) as u32
    } else {
        mag
    }
}

/// The bit pattern of the `f32` that a number stands for: a float as it is; an
/// int or a double as `as f32` rounds it. A NaN double gives a quiet NaN (Rust
/// leaves the payload open; equality reads only that it is a NaN).
pub open spec fn number_as_f32_bits(n: Number) -> u32 {
    match n {
        Number::Float(b) => b,
        Number::Int(i) => if i == 0 {
            0
        } else {
            with_sign(i < 0, round_to_f32((if i < 0 { -(i as int) } else { i as int }) as nat, 0))
        },
        Number::Double(b) => {
            let negative = b >= 0x8000_0000_0000_0000;
            let exponent = (b / 0x10_0000_0000_0000) % 0x800;
            let fraction = b % 0x10_0000_0000_0000;
            if exponent == 0x7ff {
                if fraction != 0 {
                    0x7fc0_0000
                } else {
                    with_sign(negative, 0x7f80_0000)
                }
            } else if exponent == 0 {
                if fraction == 0 {
                    with_sign(negative, 0)
                } else {
                    with_sign(negative, round_to_f32(fraction as nat, -1074))
                }
            } else {
                with_sign(
                    negative,
                    round_to_f32((0x10_0000_0000_0000 + fraction) as nat, exponent - 1075),
                )
            }
        },
    }
}

/// An `f32` bit pattern that is a NaN.
pub open spec fn f32_is_nan(b: u32) -> bool {
    (b / 0x80_0000) % 0x100 == 0xff && b % 0x80_0000 != 0
}

/// `==` on the `f32`s with these bit patterns: a NaN equals nothing, `0.0`
/// equals `-0.0`, and otherwise the patterns must be the same.
pub open spec fn f32_bits_equal(a: u32, b: u32) -> bool {
    &&& !f32_is_nan(a)
    &&& !f32_is_nan(b)
    &&& (a == b || (a % 0x8000_0000 == 0 && b % 0x8000_0000 == 0))
}

/// Two numbers stand for equal `f32`s.
pub open spec fn same_f32(a: Number, b: Number) -> bool {
    f32_bits_equal(number_as_f32_bits(a), number_as_f32_bits(b))
}

proof fn lemma_floor_log2_bounds(m: nat)
    requires
        m >= 1,
    ensures
        pow2(floor_log2(m)) <= m < pow2(floor_log2(m) + 1),
    decreases m,
{
    lemma2_to64();
    if m > 1 {
        lemma_floor_log2_bounds(m / 2);
        lemma_pow2_adds(1, floor_log2(m / 2));
        lemma_pow2_adds(1, floor_log2(m / 2) + 1);
    }
}

fn floor_log2_of(m: u64) -> (b: u32)
    requires
        m >= 1,
    ensures
        b == floor_log2(m as nat),
        b < 64,
{
    proof {
        lemma_floor_log2_bounds(m as nat);
        lemma2_to64();
        if floor_log2(m as nat) >= 64 {
            if floor_log2(m as nat) > 64 {
                lemma_pow2_strictly_increases(64, floor_log2(m as nat));
            }
        }
    }
    let mut v = m;
    let mut b: u32 = 0;
    while v > 1
        invariant
            v >= 1,
            b + floor_log2(v as nat) == floor_log2(m as nat),
            b + floor_log2(v as nat) < 64,
        decreases v,
    {
        v = v / 2;
        b = b + 1;
    }
    b
}

/// `round_half_even(m, k)` for a shift that fits a `u64`.
fn round_half_even_of(m: u64, k: u64) -> (q: u64)
    requires
        1 <= k < 64,
    ensures
        q == round_half_even(m as nat, k as nat),
        q <= m / 2 + 1,
{
    let q0 = m >> k;
    proof {
        lemma2_to64();
        lemma_pow2_pos(k as nat);
        lemma_u64_shr_is_div(m, k);
        lemma_fundamental_div_mod(m as int, pow2(k as nat) as int);
        assert(q0 * pow2(k as nat) <= m) by (nonlinear_arith)
            requires
                q0 == m as int / (pow2(k as nat) as int),
                pow2(k as nat) > 0,
        ;
        lemma_u64_shl_is_mul(q0, k);
        lemma_pow2_adds(1, (k - 1) as nat);
        lemma_pow2_strictly_increases((k - 1) as nat, 64);
        lemma_u64_shl_is_mul(1, (k - 1) as u64);
        if k > 1 {
            lemma_pow2_strictly_increases(1, k as nat);
        }
        assert(q0 <= m / 2) by (nonlinear_arith)
            requires
                q0 == m as int / (pow2(k as nat) as int),
                pow2(k as nat) >= 2,
        ;
    }
    let low = m - (q0 << k);
    let half: u64 = 1u64 << (k - 1);
    if low > half {
        q0 + 1
    } else if low < half {
        q0
    } else if q0 % 2 == 0 {
        q0
    } else {
        q0 + 1
    }
}

/// `round_to_f32(m, e)` for the significands and exponents of `i32` and `f64`
/// values.
fn round_to_f32_of(m: u64, e: i32) -> (r: u32)
    requires
        1 <= m < 0x20_0000_0000_0000,
        -1100 <= e <= 1000,
    ensures
        r == round_to_f32(m as nat, e as int),
        r <= 0x7f80_0000,
{
    let b = floor_log2_of(m);
    proof {
        lemma2_to64();
        lemma_floor_log2_bounds(m as nat);
        lemma_pow2_adds(21, 32);
        if b >= 53 {
            if b > 53 {
                lemma_pow2_strictly_increases(53, b as nat);
            }
            assert(false);
        }
    }
    let x: i32 = b as i32 + e;
    let t: i32 = if x < -126 {
        -126
    } else {
        x
    };
    if t > 127 {
        return 0x7f80_0000;
    }
    let shift: i32 = t - 23 - e;
    let q: u64 = if shift <= 0 {
        let s: u64 = (-shift) as u64;
        proof {
            // m < 2^(b + 1) and s <= 23 - b, so m * 2^s < 2^24
            lemma_pow2_adds((b + 1) as nat, s as nat);
            if b + 1 + s < 24 {
                lemma_pow2_strictly_increases((b + 1 + s) as nat, 24);
            }
            assert(m * pow2(s as nat) < pow2((b + 1) as nat) * pow2(s as nat)) by (nonlinear_arith)
                requires
                    m < pow2((b + 1) as nat),
                    pow2(s as nat) > 0,
            ;
            lemma_pow2_pos(s as nat);
            lemma_u64_shl_is_mul(m, s);
        }
        m << s
    } else if shift >= 60 {
        proof {
            let d = pow2(shift as nat);
            lemma_pow2_adds(28, 32);
            if shift > 60 {
                lemma_pow2_strictly_increases(60, shift as nat);
            }
            lemma_small_mod(m as nat, d);
            assert(m as int / (d as int) == 0) by (nonlinear_arith)
                requires
                    0 <= m < d,
            ;
        }
        0
    } else {
        round_half_even_of(m, shift as u64)
    };
    let mag: u64 = ((t + 126) as u64) * 0x80_0000 + q;
    if mag >= 0x7f80_0000 {
        0x7f80_0000
    } else {
        mag as u32
    }
}

proof fn lemma_f32_fields(b: u32)
    ensures
        ((b >> 23) & 0xff == 0xff && b & 0x7f_ffff != 0) == f32_is_nan(b),
        (b & 0x7fff_ffff == 0) == (b % 0x8000_0000 == 0),
{
    assert(((b >> 23) & 0xff) == (b / 0x80_0000) % 0x100) by (bit_vector);
    assert(b & 0x7f_ffff == b % 0x80_0000) by (bit_vector);
    assert(b & 0x7fff_ffff == b % 0x8000_0000) by (bit_vector);
}

/// `==` on the `f32`s with bit patterns `a` and `b`.
pub fn f32_bits_eq(a: u32, b: u32) -> (r: bool)
    ensures
        r == f32_bits_equal(a, b),
{
    proof {
        lemma_f32_fields(a);
        lemma_f32_fields(b);
    }
    let a_nan = (a >> 23) & 0xff == 0xff && a & 0x7f_ffff != 0;
    let b_nan = (b >> 23) & 0xff == 0xff && b & 0x7f_ffff != 0;
    !a_nan && !b_nan && (a == b || (a & 0x7fff_ffff == 0 && b & 0x7fff_ffff == 0))
}

proof fn lemma_f64_fields(b: u64)
    ensures
        (b >> 63 == 1) == (b >= 0x8000_0000_0000_0000),
        (b >> 52) & 0x7ff == (b / 0x10_0000_0000_0000) % 0x800,
        b & 0xf_ffff_ffff_ffff == b % 0x10_0000_0000_0000,
{
    assert((b >> 63 == 1) == (b >= 0x8000_0000_0000_0000)) by (bit_vector);
    assert((b >> 52) & 0x7ff == (b / 0x10_0000_0000_0000) % 0x800) by (bit_vector);
    assert(b & 0xf_ffff_ffff_ffff == b % 0x10_0000_0000_0000) by (bit_vector);
}

/// The bit pattern of the `f32` that a number stands for (`as f32` for an int
/// or a double).
pub fn number_to_f32_bits(n: Number) -> (r: u32)
    ensures
        r == number_as_f32_bits(n),
{
    match n {
        Number::Float(b) => b,
        Number::Int(i) => {
            if i == 0 {
                return 0;
            }
            let negative = i < 0;
            let m: u64 = if negative {
                (-(i as i64)) as u64
            } else {
                i as u64
            };
            let mag = round_to_f32_of(m, 0);
            if negative {
                mag + 0x8000_0000
            } else {
                mag
            }
        },
        Number::Double(b) => {
            proof {
                lemma_f64_fields(b);
            }
            let negative = b >> 63 == 1;
            let exponent = (b >> 52) & 0x7ff;
            let fraction = b & 0xf_ffff_ffff_ffff;
            let mag: u32 = if exponent == 0x7ff {
                if fraction != 0 {
                    return 0x7fc0_0000;
                }
                0x7f80_0000
            } else if exponent == 0 {
                if fraction == 0 {
                    0
                } else {
                    round_to_f32_of(fraction, -1074)
                }
            } else {
                round_to_f32_of(0x10_0000_0000_0000 + fraction, (exponent as i32) - 1075)
            };
            if negative {
                mag + 0x8000_0000
            } else {
                mag
            }
        },
    }
}

} // verus!
