//! IEEE 754 binary32 numbers as bit patterns.
//!
//! The crate does not compute with floating-point numbers; it carries their
//! bit patterns and, for normalized values, converts between bit patterns and
//! multiples of 2^-15. The spec functions here say what a bit pattern stands
//! for: `significand * 2^(max(exponent, 1) - 150)`, negated when the sign bit
//! is set.

use vstd::prelude::*;
use vstd::arithmetic::power2::{
    lemma2_to64, lemma_pow2_pos, lemma_pow2_strictly_increases, lemma_pow2_unfold, pow2,
};

verus! {

/// The sign bit.
pub open spec fn negative(bits: u32) -> bool {
    bits >= 0x8000_0000
}

/// The biased exponent field.
pub open spec fn exponent(bits: u32) -> int {
    (bits as int / 0x80_0000) % 256
}

/// The fraction field.
pub open spec fn fraction(bits: u32) -> int {
    bits as int % 0x80_0000
}

/// The significand with its hidden bit.
pub open spec fn significand(bits: u32) -> int {
    if exponent(bits) == 0 {
        fraction(bits)
    } else {
        fraction(bits) + 0x80_0000
    }
}

/// Whether the pattern is not a number.
pub open spec fn is_nan(bits: u32) -> bool {
    exponent(bits) == 255 && fraction(bits) != 0
}

/// The number, counted in steps of 2^-15, is `significand / 2^step_shift` for
/// exponents up to that of 1.0.
pub open spec fn step_shift(bits: u32) -> nat
    recommends
        exponent(bits) <= 127,
{
    (135 - if exponent(bits) == 0 {
        1
    } else {
        exponent(bits)
    }) as nat
}

/// The multiple of 2^-15 nearest to the number, halves away from zero, where
/// the number is first brought into the range from -1 to 1 - 2^-15. What is
/// not a number counts as 0.
pub open spec fn nearest_step(bits: u32) -> int {
    if is_nan(bits) {
        0
    } else if exponent(bits) >= 127 {
        if negative(bits) {
            -32768
        } else {
            32767
        }
    } else {
        let k = step_shift(bits);
        let n = (significand(bits) + pow2((k - 1) as nat)) / pow2(k) as int;
        if negative(bits) {
            -n
        } else if n > 32767 {
            32767
        } else {
            n
        }
    }
}

/// The nearest multiple of 2^-15 fits sixteen bits.
pub proof fn law_nearest_step_range(bits: u32)
    ensures
        -32768 <= nearest_step(bits) <= 32767,
{
    if !is_nan(bits) && exponent(bits) < 127 {
        let k = step_shift(bits);
        let p = pow2((k - 1) as nat) as int;
        let q = pow2(k) as int;
        lemma2_to64();
        lemma_pow2_unfold(k);
        lemma_pow2_pos((k - 1) as nat);
        if k > 9 {
            lemma_pow2_strictly_increases(9, k);
        }
        let sum = significand(bits) + p;
        assert(0 <= sum / q <= 32768) by (nonlinear_arith)
            requires
                q > 0,
                0 <= sum < 32769 * q,
        ;
    }
}

/// The pattern stands for exactly `n` steps of 2^-15, and is the usual one:
/// positive zero, or a significand with its hidden bit.
pub open spec fn stands_for_steps(bits: u32, n: int) -> bool {
    if n == 0 {
        bits == 0
    } else {
        &&& 1 <= exponent(bits) <= 127
        &&& negative(bits) == (n < 0)
        &&& significand(bits) == (if n < 0 {
            -n
        } else {
            n
        }) * pow2(step_shift(bits))
    }
}

/// The usual bit pattern of `n` steps of 2^-15.
pub open spec fn step_bits(n: int) -> u32 {
    choose|bits: u32| stands_for_steps(bits, n)
}

/// There is only one usual pattern for a number of steps.
pub proof fn lemma_step_bits_unique(x: u32, y: u32, n: int)
    requires
        stands_for_steps(x, n),
        stands_for_steps(y, n),
    ensures
        x == y,
        x == step_bits(n),
{
    lemma_no_larger_exponent(x, y, n);
    lemma_no_larger_exponent(y, x, n);
    lemma_fields(x);
    lemma_fields(y);
    let z = step_bits(n);
    lemma_no_larger_exponent(x, z, n);
    lemma_no_larger_exponent(z, x, n);
    lemma_fields(z);
}

proof fn lemma_no_larger_exponent(x: u32, y: u32, n: int)
    requires
        stands_for_steps(x, n),
        stands_for_steps(y, n),
    ensures
        n != 0 ==> exponent(x) >= exponent(y),
{
    if n != 0 && exponent(x) < exponent(y) {
        let a = if n < 0 {
            -n
        } else {
            n
        };
        let p = pow2(step_shift(x)) as int;
        let q = pow2(step_shift(y)) as int;
        lemma_pow2_unfold(step_shift(x));
        let half = pow2((step_shift(x) - 1) as nat) as int;
        if step_shift(x) - 1 > step_shift(y) {
            lemma_pow2_strictly_increases(step_shift(y), (step_shift(x) - 1) as nat);
        }
        assert(a * p >= 2 * (a * q)) by (nonlinear_arith)
            requires
                p == 2 * half,
                half >= q,
                a >= 0,
        ;
    }
}

/// A pattern is made of its fields.
proof fn lemma_fields(x: u32)
    ensures
        x as int == (if negative(x) {
            0x8000_0000int
        } else {
            0
        }) + exponent(x) * 0x80_0000 + fraction(x),
{
}

fn power_of_two(k: u32) -> (p: u32)
    requires
        k <= 24,
    ensures
        p == pow2(k as nat),
{
    let mut p: u32 = 1;
    let mut i: u32 = 0;
    proof {
        lemma2_to64();
    }
    while i < k
        invariant
            i <= k <= 24,
            p == pow2(i as nat),
            pow2(24) == 0x100_0000,
        decreases k - i,
    {
        proof {
            lemma_pow2_unfold((i + 1) as nat);
            if i + 1 < 24 {
                lemma_pow2_strictly_increases((i + 1) as nat, 24);
            }
        }
        p = p * 2;
        i += 1;
    }
    p
}

/// Converts a bit pattern to steps of 2^-15.
pub(crate) fn to_steps(bits: u32) -> (n: i16)
    ensures
        n as int == nearest_step(bits),
{
    let neg: bool = bits >= 0x8000_0000;
    let e: u32 = (bits / 0x80_0000) % 256;
    let f: u32 = bits % 0x80_0000;
    if e == 255 && f != 0 {
        return 0;
    }
    if e >= 127 {
        return if neg {
            -32768
        } else {
            32767
        };
    }
    let m: u32 = if e == 0 {
        f
    } else {
        f + 0x80_0000
    };
    let k: u32 = 135 - if e == 0 {
        1
    } else {
        e
    };
    let n: u32 = if k >= 25 {
        proof {
            lemma2_to64();
            if k > 25 {
                lemma_pow2_strictly_increases(24, (k - 1) as nat);
            }
            lemma_pow2_unfold(k as nat);
            let half = pow2((k - 1) as nat) as int;
            assert((m + half) / (2 * half) == 0) by (nonlinear_arith)
                requires
                    0 <= m,
                    m < half,
            ;
        }
        0
    } else {
        proof {
            lemma2_to64();
            lemma_pow2_unfold(k as nat);
        }
        let p: u32 = power_of_two(k);
        let half: u32 = power_of_two(k - 1);
        proof {
            if k > 9 {
                lemma_pow2_strictly_increases(9, k as nat);
            }
            assert(p >= 512);
            if k < 24 {
                lemma_pow2_strictly_increases(k as nat, 24);
            }
            assert((m + half) as int / p as int <= 32768) by (nonlinear_arith)
                requires
                    m < 0x100_0000,
                    p == 2 * half,
                    p >= 512,
            ;
        }
        (m + half) / p
    };
    if neg {
        (0 - (n as i32)) as i16
    } else if n > 32767 {
        32767
    } else {
        n as i16
    }
}

/// Converts steps of 2^-15 to a bit pattern.
pub(crate) fn from_steps(n: i16) -> (bits: u32)
    ensures
        stands_for_steps(bits, n as int),
        bits == step_bits(n as int),
{
    if n == 0 {
        proof { lemma_step_bits_unique(0, 0, 0); }
        return 0;
    }
    let a: u32 = if n < 0 {
        (0 - (n as i32)) as u32
    } else {
        n as u32
    };
    let mut m: u32 = a;
    let mut k: u32 = 0;
    proof {
        lemma2_to64();
    }
    while m < 0x80_0000
        invariant
            1 <= a <= 32768,
            m == a * pow2(k as nat),
            m < 0x100_0000,
            k <= 23,
            m < 0x80_0000 ==> k < 23,
            pow2(23) == 0x80_0000,
            pow2(8) == 256,
        decreases 0x100_0000 - m,
    {
        proof {
            lemma_pow2_unfold((k + 1) as nat);
            lemma_pow2_pos(k as nat);
            let p = pow2(k as nat) as int;
            assert(a * (2 * p) == 2 * (a * p)) by (nonlinear_arith);
            if k + 1 == 23 {
                assert(a * 0x80_0000 >= 0x80_0000) by (nonlinear_arith)
                    requires
                        a >= 1,
                ;
            }
            assert(m >= 1) by (nonlinear_arith)
                requires
                    m == a * p,
                    a >= 1,
                    p >= 1,
            ;
        }
        m = m * 2;
        k += 1;
    }
    proof {
        if k < 8 {
            lemma_pow2_strictly_increases(k as nat, 8);
            let p = pow2(k as nat) as int;
            assert(a * p < 0x80_0000) by (nonlinear_arith)
                requires
                    a <= 32768,
                    0 <= p < 256,
            ;
        }
    }
    let e: u32 = 135 - k;
    let magnitude: u32 = e * 0x80_0000 + (m - 0x80_0000);
    let bits: u32 = if n < 0 {
        magnitude + 0x8000_0000
    } else {
        magnitude
    };
    proof { lemma_step_bits_unique(bits, bits, n as int); }
    bits
}

/// A multiple of 2^-15 survives the way through a bit pattern.
pub proof fn law_steps_round_trip(bits: u32, n: int)
    requires
        -32768 <= n <= 32767,
        stands_for_steps(bits, n),
    ensures
        nearest_step(bits) == n,
{
    lemma2_to64();
    if n == 0 {
        let p = pow2(133) as int;
        let q = pow2(134) as int;
        lemma_pow2_unfold(134);
        lemma_pow2_pos(133);
        assert(p / q == 0) by (nonlinear_arith)
            requires
                0 < p,
                q == 2 * p,
        ;
    } else {
        let a = if n < 0 {
            -n
        } else {
            n
        };
        let k = step_shift(bits);
        lemma_pow2_unfold(k);
        let half = pow2((k - 1) as nat) as int;
        if exponent(bits) == 127 {
            assert(a * 256 >= 0x80_0000);
        } else {
            assert((a * (2 * half) + half) / (2 * half) == a) by (nonlinear_arith)
                requires
                    half > 0,
                    a >= 0,
            ;
        }
    }
}

/// The nearest step is at most half a step away: for a number of the exponent
/// field `e` below 127 that counts `f / 2^k` steps, with `k = 135 - e`, the
/// steps are those around `f / 2^k`, halves away from zero, cut to 32767.
/// Numbers from 1 up and -1 down are cut to the ends of the range, and what is
/// not a number counts as 0.
pub proof fn law_nearest_step(bits: u32, e: int, f: int, k: nat)
    requires
        e == (bits as int / 0x80_0000) % 256,
        f == bits as int % 0x80_0000 + (if e == 0 {
            0int
        } else {
            0x80_0000
        }),
        e < 127 ==> k == 135 - (if e == 0 {
            1
        } else {
            e
        }),
    ensures
        e == 255 && f != 0x80_0000 ==> nearest_step(bits) == 0,
        e >= 127 && !(e == 255 && f != 0x80_0000) ==> nearest_step(bits) == (if bits >= 0x8000_0000 {
            -32768
        } else {
            32767int
        }),
        e < 127 ==> {
            let n = nearest_step(bits);
            let m = if bits >= 0x8000_0000 {
                -n
            } else {
                n
            };
            let p = pow2(k) as int;
            &&& m >= 0
            &&& (2 * m - 1) * p <= 2 * f
            &&& 2 * f < (2 * m + 1) * p || (bits < 0x8000_0000 && m == 32767)
        },
{
    if e < 127 {
        let p = pow2(k) as int;
        let h = pow2((k - 1) as nat) as int;
        lemma2_to64();
        lemma_pow2_unfold(k);
        lemma_pow2_pos((k - 1) as nat);
        let q = (f + h) / p;
        assert(p == 2 * h);
        assert(q * p <= f + h < (q + 1) * p && q >= 0) by (nonlinear_arith)
            requires
                q == (f + h) / p,
                p > 0,
                f >= 0,
                h >= 0,
        ;
        assert((2 * q - 1) * p <= 2 * f < (2 * q + 1) * p) by (nonlinear_arith)
            requires
                q * p <= f + h < (q + 1) * p,
                p == 2 * h,
        ;
        if q > 32767 && bits < 0x8000_0000 {
            assert((2 * 32767 - 1) * p <= (2 * q - 1) * p) by (nonlinear_arith)
                requires
                    q > 32767,
                    p > 0,
            ;
        }
    }
}

/// The pattern of a number of steps is that of the number itself: sign, and a
/// significand that counts as many steps as the exponent says.
pub proof fn law_step_pattern(bits: u32, n: int, e: int)
    requires
        stands_for_steps(bits, n),
        e == (bits as int / 0x80_0000) % 256,
    ensures
        n == 0 ==> bits == 0,
        n != 0 ==> {
            &&& 1 <= e <= 127
            &&& bits >= 0x8000_0000 <==> n < 0
            &&& bits as int % 0x80_0000 + 0x80_0000 == (if n < 0 {
                -n
            } else {
                n
            }) * pow2((135 - e) as nat)
        },
{
}

} // verus!
