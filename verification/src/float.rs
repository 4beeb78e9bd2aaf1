//! Floating-point numbers as the runtime holds them: the 64 bits of the IEEE 754
//! binary64 encoding, read with integer arithmetic, beside the text that prints
//! the number. Whoever builds a `Float` supplies both.

use vstd::prelude::*;
use vstd::arithmetic::power2::{
    pow2,
    lemma_pow2_pos,
    lemma_pow2_adds,
    lemma_pow2_unfold,
    lemma_pow2_strictly_increases,
    lemma2_to64,
    lemma2_to64_rest,
};

verus! {

/// Whether the sign bit is set.
pub open spec fn is_negative(bits: u64) -> bool {
    bits >= 0x8000_0000_0000_0000
}

/// The encoding without its sign bit.
pub open spec fn magnitude(bits: u64) -> int {
    bits as int % 0x8000_0000_0000_0000
}

/// The biased exponent field, 11 bits.
pub open spec fn exponent(bits: u64) -> int {
    magnitude(bits) / 0x10_0000_0000_0000
}

/// The fraction field, 52 bits.
pub open spec fn fraction(bits: u64) -> int {
    magnitude(bits) % 0x10_0000_0000_0000
}

/// Whether the encoding is not a number.
pub open spec fn is_nan(bits: u64) -> bool {
    exponent(bits) == 0x7ff && fraction(bits) != 0
}

/// The significand as an integer: the fraction, with the hidden bit for normal numbers.
pub open spec fn significand(bits: u64) -> int {
    if exponent(bits) == 0 {
        fraction(bits)
    } else {
        fraction(bits) + 0x10_0000_0000_0000
    }
}

/// The power of two by which the significand is multiplied, counted from the
/// smallest one that the encoding has (2 to the -1074).
pub open spec fn binary_scale(bits: u64) -> nat {
    if exponent(bits) == 0 {
        0
    } else {
        (exponent(bits) - 1) as nat
    }
}

/// The absolute value of the encoded number, multiplied by 2 to the 1074.
pub open spec fn absolute_scaled(bits: u64) -> int {
    significand(bits) * pow2(binary_scale(bits))
}

/// The encoded number multiplied by 2 to the 1074, which makes every finite
/// binary64 an integer. An infinity stands beyond every finite number, on its side.
pub open spec fn scaled(bits: u64) -> int {
    if is_negative(bits) {
        -absolute_scaled(bits)
    } else {
        absolute_scaled(bits)
    }
}

/// An integer on the scale of `scaled`.
pub open spec fn scaled_integer(i: int) -> int {
    i * pow2(1074)
}

/// -1, 0 or 1 as `x` is below, at or above zero.
pub open spec fn sign_of(x: int) -> int {
    if x < 0 {
        -1
    } else if x == 0 {
        0
    } else {
        1
    }
}

proof fn lemma_absolute_scaled_increases(x: u64, y: u64)
    requires
        magnitude(x) < magnitude(y),
    ensures
        absolute_scaled(x) < absolute_scaled(y),
{
    let h: int = 0x10_0000_0000_0000;
    let ex = exponent(x);
    let ey = exponent(y);
    let sx = significand(x);
    let sy = significand(y);
    let px: int = pow2(binary_scale(x)) as int;
    let py: int = pow2(binary_scale(y)) as int;
    lemma_pow2_pos(binary_scale(x));
    lemma_pow2_pos(binary_scale(y));
    if ex == ey {
        assert(sx < sy);
        assert(sx * px < sy * px) by (nonlinear_arith)
            requires
                sx < sy,
                px > 0,
        ;
    } else {
        assert(ex < ey);
        if ex == 0 {
            lemma2_to64();
            assert(sx * px == sx) by (nonlinear_arith)
                requires
                    px == 1,
            ;
            assert(sy * py >= h) by (nonlinear_arith)
                requires
                    sy >= h,
                    py >= 1,
                    h > 0,
            ;
        } else {
            let pe: int = pow2(ex as nat) as int;
            lemma_pow2_unfold(ex as nat);
            if ex < ey - 1 {
                lemma_pow2_strictly_increases(ex as nat, (ey - 1) as nat);
            }
            assert(pe <= py);
            assert(pe == 2 * px);
            assert(sx * px < h * pe) by (nonlinear_arith)
                requires
                    sx < 2 * h,
                    px > 0,
                    pe == 2 * px,
            ;
            assert(h * pe <= sy * py) by (nonlinear_arith)
                requires
                    pe <= py,
                    h <= sy,
                    h > 0,
                    pe > 0,
            ;
        }
    }
}

proof fn lemma_absolute_scaled_zero(x: u64)
    ensures
        absolute_scaled(x) >= 0,
        absolute_scaled(x) == 0 <==> magnitude(x) == 0,
{
    if magnitude(x) == 0 {
        assert(significand(x) == 0);
        assert(absolute_scaled(x) == 0) by (nonlinear_arith)
            requires
                absolute_scaled(x) == significand(x) * pow2(binary_scale(x)),
                significand(x) == 0,
        ;
    } else {
        assert(magnitude(0u64) == 0);
        assert(significand(0u64) == 0);
        assert(absolute_scaled(0u64) == 0) by (nonlinear_arith)
            requires
                absolute_scaled(0u64) == significand(0u64) * pow2(binary_scale(0u64)),
                significand(0u64) == 0,
        ;
        lemma_absolute_scaled_increases(0u64, x);
    }
}

/// The order of the encodings without sign is the order of the absolute values.
proof fn lemma_magnitude_orders(x: u64, y: u64)
    ensures
        sign_of(magnitude(x) - magnitude(y)) == sign_of(absolute_scaled(x) - absolute_scaled(y)),
{
    if magnitude(x) < magnitude(y) {
        lemma_absolute_scaled_increases(x, y);
    } else if magnitude(y) < magnitude(x) {
        lemma_absolute_scaled_increases(y, x);
    } else {
        assert(exponent(x) == exponent(y));
        assert(fraction(x) == fraction(y));
    }
}

/// Scaling both sides of a difference by a positive factor keeps its sign.
pub proof fn lemma_sign_scales(a: int, b: int, q: int)
    requires
        q > 0,
    ensures
        sign_of(a * q - b * q) == sign_of(a - b),
{
    assert(a < b ==> a * q < b * q) by (nonlinear_arith)
        requires
            q > 0,
    ;
    assert(a > b ==> a * q > b * q) by (nonlinear_arith)
        requires
            q > 0,
    ;
}

/// Integers stand on the common scale in their own order.
pub proof fn lemma_scaled_integers(a: int, b: int)
    ensures
        sign_of(scaled_integer(a) - scaled_integer(b)) == sign_of(a - b),
{
    lemma_pow2_pos(1074);
    lemma_sign_scales(a, b, pow2(1074) as int);
}

/// 2 to the `k`, for the exponents that the comparisons need.
fn power_of_two(k: u64) -> (p: i128)
    requires
        k <= 62,
    ensures
        p == pow2(k as nat),
        1 <= p <= 0x4000_0000_0000_0000,
{
    let mut p: i128 = 1;
    let mut j: u64 = 0;
    proof {
        lemma2_to64();
        lemma2_to64_rest();
    }
    while j < k
        invariant
            j <= k <= 62,
            p == pow2(j as nat),
            1 <= p <= 0x4000_0000_0000_0000,
            pow2(62) == 0x4000_0000_0000_0000,
        decreases k - j,
    {
        proof {
            lemma_pow2_unfold((j + 1) as nat);
            if j + 1 < 62 {
                lemma_pow2_strictly_increases((j + 1) as nat, 62);
            }
        }
        p = p * 2;
        j = j + 1;
    }
    p
}

fn signum(x: i128) -> (s: i8)
    ensures
        s == sign_of(x as int),
{
    if x < 0 {
        -1
    } else if x == 0 {
        0
    } else {
        1
    }
}

/// The sign of the difference between two encoded numbers, first minus second.
/// It is meant for encodings that are numbers.
pub fn difference_sign(a: u64, b: u64) -> (s: i8)
    ensures
        s == sign_of(scaled(a) - scaled(b)),
{
    let ma: i128 = (a % 0x8000_0000_0000_0000) as i128;
    let mb: i128 = (b % 0x8000_0000_0000_0000) as i128;
    let ka: i128 = if a >= 0x8000_0000_0000_0000 { -ma } else { ma };
    let kb: i128 = if b >= 0x8000_0000_0000_0000 { -mb } else { mb };
    proof {
        lemma_magnitude_orders(a, b);
        lemma_absolute_scaled_zero(a);
        lemma_absolute_scaled_zero(b);
    }
    signum(ka - kb)
}

/// The sign of the difference between an integer and an encoded number, the
/// integer minus the number, both taken exactly.
pub fn integer_difference_sign(i: i64, bits: u64) -> (s: i8)
    ensures
        s == sign_of(scaled_integer(i as int) - scaled(bits)),
{
    let negative = bits >= 0x8000_0000_0000_0000;
    let mag: u64 = bits % 0x8000_0000_0000_0000;
    let e: u64 = mag / 0x10_0000_0000_0000;
    let f: u64 = mag % 0x10_0000_0000_0000;
    let m: u64 = if e == 0 { f } else { f + 0x10_0000_0000_0000 };
    let scale: u64 = if e == 0 { 0 } else { e - 1 };
    let ghost q1074: int = pow2(1074) as int;
    let ghost qs: int = pow2(scale as nat) as int;
    let ghost gi: int = i as int;
    let ghost gm: int = m as int;
    proof {
        lemma2_to64();
        lemma2_to64_rest();
        lemma_pow2_pos(1074);
        lemma_pow2_pos(scale as nat);
        assert(m == significand(bits));
        assert(scale == binary_scale(bits));
        assert(absolute_scaled(bits) == gm * qs);
    }
    if scale >= 1074 {
        let shift: u64 = scale - 1074;
        let ghost qh: int = pow2(shift as nat) as int;
        proof {
            lemma_pow2_adds(shift as nat, 1074);
            lemma_pow2_pos(shift as nat);
            assert(qs == qh * q1074);
            assert(gm * qs == (gm * qh) * q1074) by (nonlinear_arith)
                requires
                    qs == qh * q1074,
            ;
        }
        if shift >= 12 {
            proof {
                if shift > 12 {
                    lemma_pow2_strictly_increases(12, shift as nat);
                }
                assert(qh >= 4096);
                assert(gm >= 0x10_0000_0000_0000);
                assert(gm * qh >= 0x1_0000_0000_0000_0000) by (nonlinear_arith)
                    requires
                        gm >= 0x10_0000_0000_0000,
                        qh >= 4096,
                ;
                if negative {
                    lemma_sign_scales(gi, -(gm * qh), q1074);
                    assert((-(gm * qh)) * q1074 == -((gm * qh) * q1074)) by (nonlinear_arith);
                } else {
                    lemma_sign_scales(gi, gm * qh, q1074);
                }
            }
            if negative {
                1
            } else {
                -1
            }
        } else {
            let p = power_of_two(shift);
            proof {
                if shift < 11 {
                    lemma_pow2_strictly_increases(shift as nat, 11);
                }
                assert(p <= 2048);
                assert(gm * p <= 0x20_0000_0000_0000 * 2048) by (nonlinear_arith)
                    requires
                        0 <= gm <= 0x20_0000_0000_0000,
                        0 <= p <= 2048,
                ;
                assert(gm * p >= 0) by (nonlinear_arith)
                    requires
                        0 <= gm,
                        0 <= p,
                ;
            }
            let v: i128 = (m as i128) * p;
            let fv: i128 = if negative { -v } else { v };
            proof {
                lemma_sign_scales(gi, fv as int, q1074);
                assert((-(gm * qh)) * q1074 == -((gm * qh) * q1074)) by (nonlinear_arith);
            }
            signum(i as i128 - fv)
        }
    } else {
        let k: u64 = 1074 - scale;
        let ghost qk: int = pow2(k as nat) as int;
        proof {
            lemma_pow2_adds(k as nat, scale as nat);
            lemma_pow2_pos(k as nat);
            assert(q1074 == qk * qs);
            assert(gi * q1074 == (gi * qk) * qs) by (nonlinear_arith)
                requires
                    q1074 == qk * qs,
            ;
            assert((-gm) * qs == -(gm * qs)) by (nonlinear_arith);
        }
        if k >= 53 {
            proof {
                if k > 53 {
                    lemma_pow2_strictly_increases(53, k as nat);
                }
                assert(qk >= 0x20_0000_0000_0000);
                assert(gm < qk);
                assert(gi >= 1 ==> gi * qk >= qk) by (nonlinear_arith)
                    requires
                        qk > 0,
                ;
                assert(gi <= -1 ==> gi * qk <= -qk) by (nonlinear_arith)
                    requires
                        qk > 0,
                ;
                assert(gi == 0 ==> gi * qk == 0) by (nonlinear_arith);
                if negative {
                    lemma_sign_scales(gi * qk, -gm, qs);
                } else {
                    lemma_sign_scales(gi * qk, gm, qs);
                }
            }
            if i > 0 {
                1
            } else if i < 0 {
                -1
            } else if m == 0 {
                0
            } else if negative {
                1
            } else {
                -1
            }
        } else {
            let p = power_of_two(k);
            proof {
                if k < 52 {
                    lemma_pow2_strictly_increases(k as nat, 52);
                }
                assert(p <= 0x10_0000_0000_0000);
                assert(-0x8000_0000_0000_0000 * 0x10_0000_0000_0000 <= gi * p
                    <= 0x8000_0000_0000_0000 * 0x10_0000_0000_0000) by (nonlinear_arith)
                    requires
                        -0x8000_0000_0000_0000 <= gi <= 0x8000_0000_0000_0000,
                        0 <= p <= 0x10_0000_0000_0000,
                ;
            }
            let si: i128 = (i as i128) * p;
            let fm: i128 = if negative { -(m as i128) } else { m as i128 };
            proof {
                lemma_sign_scales(si as int, fm as int, qs);
            }
            signum(si - fm)
        }
    }
}

/// A floating-point number of the language.
#[derive(Debug, Clone)]
pub struct Float {
    bits: u64,
    text: String,
}

impl Float {
    /// A number from its binary64 encoding and the text that prints it.
    pub fn new(bits: u64, text: String) -> (float: Float)
        ensures
            float.bits() == bits,
            float.text() == text@,
    {
        Float { bits, text }
    }

    /// The binary64 encoding.
    pub closed spec fn bits(&self) -> u64 {
        self.bits
    }

    /// The text that prints the number.
    pub closed spec fn text(&self) -> Seq<char> {
        self.text@
    }

    /// The binary64 encoding.
    pub fn to_bits(&self) -> (bits: u64)
        ensures
            bits == self.bits(),
    {
        self.bits
    }

    /// The text that prints the number.
    pub fn to_string(&self) -> (text: String)
        ensures
            text@ == self.text(),
    {
        self.text.clone()
    }

    /// The same number once more.
    pub fn duplicate(&self) -> (float: Float)
        ensures
            float.bits() == self.bits(),
            float.text() == self.text(),
    {
        Float { bits: self.bits, text: self.text.clone() }
    }

    /// Whether this is not a number.
    pub fn is_nan(&self) -> (nan: bool)
        ensures
            nan == is_nan(self.bits()),
    {
        self.bits % 0x8000_0000_0000_0000 > 0x7ff0_0000_0000_0000
    }

    /// Whether this is zero, of either sign.
    pub fn is_zero(&self) -> (zero: bool)
        ensures
            zero == (!is_nan(self.bits()) && scaled(self.bits()) == 0),
    {
        proof {
            lemma_absolute_scaled_zero(self.bits);
        }
        self.bits % 0x8000_0000_0000_0000 == 0
    }
}

} // verus!
