//! IEEE-754 binary floating point on bit patterns: the conversions between
//! doubles, singles and integers that the value model needs, in integer
//! arithmetic.

use vstd::prelude::*;
use vstd::arithmetic::power2::{
    lemma2_to64, lemma2_to64_rest, lemma_pow2_adds, lemma_pow2_pos, lemma_pow2_strictly_increases,
    lemma_pow2_unfold, pow2,
};
use vstd::bits::{lemma_u64_pow2_no_overflow, lemma_u64_shl_is_mul};

verus! {

/// Two to the 52nd: the weight of a double's exponent field.
pub const FRACTION_SPAN: u64 = 0x10_0000_0000_0000;

/// The sign bit of a double.
pub const SIGN_BIT: u64 = 0x8000_0000_0000_0000;

/// The biased exponent of a double.
pub open spec fn double_exponent(bits: u64) -> int {
    (bits as int / 0x10_0000_0000_0000) % 0x800
}

/// The fraction field of a double.
pub open spec fn double_fraction(bits: u64) -> int {
    bits as int % 0x10_0000_0000_0000
}

/// Whether the sign bit of a double is set.
pub open spec fn double_negative(bits: u64) -> bool {
    bits >= 0x8000_0000_0000_0000
}

/// Whether a double is not a number.
pub open spec fn double_is_nan(bits: u64) -> bool {
    double_exponent(bits) == 0x7ff && double_fraction(bits) != 0
}

/// The whole part of the magnitude of a finite double.
pub open spec fn double_whole_magnitude(bits: u64) -> int {
    let e = double_exponent(bits);
    let m = 0x10_0000_0000_0000 + double_fraction(bits);
    if e < 1023 {
        0
    } else if e <= 1075 {
        m / (pow2((1075 - e) as nat) as int)
    } else {
        m * pow2((e - 1075) as nat)
    }
}

/// A double as a 64-bit signed integer: rounded toward zero, held at the
/// nearest bound where it lies outside the range, and zero where it is not a
/// number.
pub open spec fn double_to_i64(bits: u64) -> int {
    if double_is_nan(bits) {
        0
    } else if double_exponent(bits) >= 1086 {
        if double_negative(bits) {
            i64::MIN as int
        } else {
            i64::MAX as int
        }
    } else if double_negative(bits) {
        -double_whole_magnitude(bits)
    } else {
        double_whole_magnitude(bits)
    }
}

/// The place of the highest set bit of a positive number.
pub open spec fn floor_log2(n: nat) -> nat
    decreases n,
{
    if n <= 1 {
        0
    } else {
        1 + floor_log2(n / 2)
    }
}

/// The bits of the double nearest to `n`, ties going to the even fraction.
pub open spec fn magnitude_double(n: nat) -> int {
    if n == 0 {
        0
    } else {
        let k = floor_log2(n);
        if k <= 52 {
            (1023 + k) * 0x10_0000_0000_0000 + (n * pow2((52 - k) as nat) - 0x10_0000_0000_0000)
        } else {
            let unit = pow2((k - 52) as nat);
            let q = n / unit;
            let r = n % unit;
            let up: int = if 2 * r > unit || (2 * r == unit && q % 2 == 1) {
                1
            } else {
                0
            };
            (1023 + k) * 0x10_0000_0000_0000 + (q - 0x10_0000_0000_0000) + up
        }
    }
}

/// The bits of the double nearest to an unsigned integer.
pub open spec fn u64_double(n: u64) -> int {
    magnitude_double(n as nat)
}

/// The bits of the double nearest to a signed integer.
pub open spec fn i64_double(n: i64) -> int {
    if n < 0 {
        0x8000_0000_0000_0000 + magnitude_double((-n) as nat)
    } else {
        magnitude_double(n as nat)
    }
}

/// The bits of the double that a single widens to. A single that is not a
/// number keeps its sign and its payload.
pub open spec fn single_double(bits: u32) -> int {
    let sign: int = if bits >= 0x8000_0000 {
        0x8000_0000_0000_0000
    } else {
        0
    };
    let e = (bits as int / 0x80_0000) % 0x100;
    let f = bits as int % 0x80_0000;
    if e == 0xff {
        sign + 0x7ff * 0x10_0000_0000_0000 + f * 0x2000_0000
    } else if e != 0 {
        sign + (e + 896) * 0x10_0000_0000_0000 + f * 0x2000_0000
    } else if f == 0 {
        sign
    } else {
        let k = floor_log2(f as nat);
        sign + (k + 874) * 0x10_0000_0000_0000 + (f * pow2((52 - k) as nat)
            - 0x10_0000_0000_0000)
    }
}

/// A number between two neighbouring powers of two has the lower one's
/// exponent as its highest bit.
pub proof fn lemma_floor_log2(n: nat, k: nat)
    requires
        pow2(k) <= n < pow2(k + 1),
    ensures
        floor_log2(n) == k,
    decreases k,
{
    lemma2_to64();
    if k == 0 {
    } else {
        lemma_pow2_unfold(k);
        lemma_pow2_unfold(k + 1);
        lemma_pow2_pos((k - 1) as nat);
        assert(n >= 2);
        lemma_floor_log2(n / 2, (k - 1) as nat);
    }
}

/// A positive number lies between the power of two of its highest bit and
/// the next one.
pub proof fn lemma_floor_log2_bounds(n: nat)
    requires
        n >= 1,
    ensures
        pow2(floor_log2(n)) <= n < pow2(floor_log2(n) + 1),
    decreases n,
{
    lemma2_to64();
    if n > 1 {
        lemma_floor_log2_bounds(n / 2);
        lemma_pow2_unfold(floor_log2(n / 2) + 1);
        lemma_pow2_unfold(floor_log2(n / 2) + 2);
    }
}

/// An integer of at most 53 bits is held by a double exactly: converting it
/// to a double and back gives the integer itself.
pub proof fn lemma_small_integers_round_trip(n: i64)
    requires
        -0x20_0000_0000_0000 <= n <= 0x20_0000_0000_0000,
    ensures
        0 <= i64_double(n) <= u64::MAX,
        double_to_i64(i64_double(n) as u64) == n,
{
    lemma2_to64();
    lemma2_to64_rest();
    if n != 0 {
        let m: nat = if n < 0 {
            (-n) as nat
        } else {
            n as nat
        };
        let k = floor_log2(m);
        lemma_floor_log2_bounds(m);
        if k > 53 {
            lemma_pow2_strictly_increases(53, k);
        }
        let sign: int = if n < 0 {
            0x8000_0000_0000_0000
        } else {
            0
        };
        if k == 53 {
            assert(m == 0x20_0000_0000_0000);
            assert(pow2(1) == 2);
            assert(m / 2 == 0x10_0000_0000_0000 && m % 2 == 0) by (nonlinear_arith)
                requires
                    m == 0x20_0000_0000_0000,
            ;
            let bits = sign + 1076 * 0x10_0000_0000_0000;
            assert(magnitude_double(m) == 1076 * 0x10_0000_0000_0000);
            assert(i64_double(n) == bits);
            assert((bits / 0x10_0000_0000_0000) % 0x800 == 1076 && bits % 0x10_0000_0000_0000 == 0)
                by (nonlinear_arith)
                requires
                    bits == sign + 1076 * 0x10_0000_0000_0000,
                    sign == 0 || sign == 0x8000_0000_0000_0000,
            ;
            assert(pow2(1) == 2);
            assert(double_whole_magnitude(bits as u64) == 0x10_0000_0000_0000 * pow2(1));
        } else {
            let p = pow2((52 - k) as nat);
            lemma_pow2_pos((52 - k) as nat);
            lemma_pow2_adds(k, (52 - k) as nat);
            lemma_pow2_adds(k + 1, (52 - k) as nat);
            let pk = pow2(k) as int;
            let pk1 = pow2(k + 1) as int;
            let pp = p as int;
            assert(m * pp < pk1 * pp) by (nonlinear_arith)
                requires
                    m < pk1,
                    pp > 0,
            ;
            assert(pk * pp <= m * pp) by (nonlinear_arith)
                requires
                    pk <= m,
                    pp > 0,
            ;
            let fraction = m * pp - 0x10_0000_0000_0000;
            let e = 1023 + k;
            let bits = sign + e * 0x10_0000_0000_0000 + fraction;
            assert(i64_double(n) == bits);
            assert((bits / 0x10_0000_0000_0000) % 0x800 == e && bits % 0x10_0000_0000_0000
                == fraction) by (nonlinear_arith)
                requires
                    bits == sign + e * 0x10_0000_0000_0000 + fraction,
                    sign == 0 || sign == 0x8000_0000_0000_0000,
                    0 <= fraction < 0x10_0000_0000_0000,
                    1023 <= e <= 1075,
            ;
            assert(0 <= bits <= u64::MAX);
            assert((m * pp) / pp == m) by (nonlinear_arith)
                requires
                    pp > 0,
                    m >= 0,
            ;
            assert(1075 - e == 52 - k);
            assert(double_whole_magnitude(bits as u64) == m);
        }
    }
}

/// Two to the power `s`.
fn two_to(s: u64) -> (r: u64)
    requires
        s < 64,
    ensures
        r == pow2(s as nat),
{
    proof {
        lemma_u64_pow2_no_overflow(s as nat);
        lemma_u64_shl_is_mul(1, s);
    }
    1u64 << s
}

/// The place of the highest set bit of `n`.
fn top_bit(n: u64) -> (k: u64)
    requires
        n > 0,
    ensures
        k < 64,
        k == floor_log2(n as nat),
        pow2(k as nat) <= n < pow2((k + 1) as nat),
{
    proof {
        lemma2_to64();
        lemma2_to64_rest();
    }
    let mut k: u64 = 63;
    while k > 0 && n < two_to(k)
        invariant
            k < 64,
            n > 0,
            n < pow2((k + 1) as nat),
        decreases k,
    {
        k -= 1;
    }
    proof {
        lemma_floor_log2(n as nat, k as nat);
    }
    k
}

/// Converts a double to a 64-bit signed integer by rounding toward zero.
pub fn truncate_double(bits: u64) -> (r: i64)
    ensures
        r == double_to_i64(bits),
{
    let e: u64 = (bits / FRACTION_SPAN) % 0x800;
    let f: u64 = bits % FRACTION_SPAN;
    let negative = bits >= SIGN_BIT;
    if e == 0x7ff && f != 0 {
        return 0;
    }
    if e >= 1086 {
        return if negative {
            i64::MIN
        } else {
            i64::MAX
        };
    }
    if e < 1023 {
        return 0;
    }
    let m: u64 = FRACTION_SPAN + f;
    let whole: u64 = if e <= 1075 {
        let p = two_to(1075 - e);
        proof {
            lemma_pow2_pos((1075 - e) as nat);
        }
        m / p
    } else {
        let p = two_to(e - 1075);
        proof {
            lemma2_to64();
            assert(pow2((e - 1075) as nat) <= 1024) by {
                if e < 1085 {
                    lemma_pow2_strictly_increases(
                        (e - 1075) as nat,
                        10,
                    );
                }
            }
            assert(m * p <= 0x1f_ffff_ffff_ffff * 1024) by (nonlinear_arith)
                requires
                    m <= 0x1f_ffff_ffff_ffff,
                    p <= 1024,
            ;
        }
        m * p
    };
    assert(whole < 0x8000_0000_0000_0000) by {
        if e <= 1075 {
            lemma_pow2_pos((1075 - e) as nat);
            let p = pow2((1075 - e) as nat) as int;
            assert(m as int / p <= m as int) by (nonlinear_arith)
                requires
                    p > 0,
                    m >= 0,
            ;
        }
    }
    if negative {
        -(whole as i64)
    } else {
        whole as i64
    }
}

/// Converts a non-zero magnitude to the bits of the nearest double.
fn magnitude_to_double(n: u64) -> (r: u64)
    ensures
        r == magnitude_double(n as nat),
        r < 0x8000_0000_0000_0000,
{
    if n == 0 {
        return 0;
    }
    let k = top_bit(n);
    if k <= 52 {
        let p = two_to(52 - k);
        proof {
            lemma_pow2_adds((k + 1) as nat, (52 - k) as nat);
            lemma_pow2_adds(k as nat, (52 - k) as nat);
            lemma_pow2_pos((52 - k) as nat);
            lemma2_to64_rest();
            let pk = pow2(k as nat) as int;
            let pk1 = pow2((k + 1) as nat) as int;
            let pp = p as int;
            assert(n * pp < pk1 * pp) by (nonlinear_arith)
                requires
                    n < pk1,
                    pp > 0,
            ;
            assert(pk * pp <= n * pp) by (nonlinear_arith)
                requires
                    pk <= n,
                    pp > 0,
            ;
        }
        (1023 + k) * FRACTION_SPAN + (n * p - FRACTION_SPAN)
    } else {
        let unit = two_to(k - 52);
        proof {
            lemma_pow2_pos((k - 52) as nat);
        }
        let q = n / unit;
        let r = n % unit;
        proof {
            lemma_pow2_adds(52, (k - 52) as nat);
            lemma_pow2_adds(53, (k - 52) as nat);
            lemma2_to64_rest();
            let u = unit as int;
            assert(q >= 0x10_0000_0000_0000) by (nonlinear_arith)
                requires
                    q == n as int / u,
                    u > 0,
                    0x10_0000_0000_0000 * u <= n,
            ;
            assert(q < 0x20_0000_0000_0000) by (nonlinear_arith)
                requires
                    q == n as int / u,
                    u > 0,
                    n < 0x20_0000_0000_0000 * u,
            ;
        }
        let up: u64 = if r > unit - r || (r == unit - r && q % 2 == 1) {
            1
        } else {
            0
        };
        (1023 + k) * FRACTION_SPAN + (q - FRACTION_SPAN) + up
    }
}

/// Converts an unsigned integer to the nearest double.
pub fn u64_to_double(n: u64) -> (r: u64)
    ensures
        r == u64_double(n),
{
    magnitude_to_double(n)
}

/// Converts a signed integer to the nearest double.
pub fn i64_to_double(n: i64) -> (r: u64)
    ensures
        r == i64_double(n),
{
    if n < 0 {
        let magnitude: u64 = if n == i64::MIN {
            SIGN_BIT
        } else {
            (-n) as u64
        };
        SIGN_BIT + magnitude_to_double(magnitude)
    } else {
        magnitude_to_double(n as u64)
    }
}

/// Widens a single to the double of the same value.
pub fn single_to_double(bits: u32) -> (r: u64)
    ensures
        r == single_double(bits),
{
    let sign: u64 = if bits >= 0x8000_0000 {
        SIGN_BIT
    } else {
        0
    };
    let e: u64 = ((bits / 0x80_0000) % 0x100) as u64;
    let f: u64 = (bits % 0x80_0000) as u64;
    if e == 0xff {
        sign + 0x7ff * FRACTION_SPAN + f * 0x2000_0000
    } else if e != 0 {
        sign + (e + 896) * FRACTION_SPAN + f * 0x2000_0000
    } else if f == 0 {
        sign
    } else {
        let k = top_bit(f);
        proof {
            lemma2_to64();
            if k > 22 {
                lemma_pow2_strictly_increases(23, k as nat);
            }
        }
        let p = two_to(52 - k);
        proof {
            lemma_pow2_adds((k + 1) as nat, (52 - k) as nat);
            lemma_pow2_adds(k as nat, (52 - k) as nat);
            lemma_pow2_pos((52 - k) as nat);
            lemma2_to64_rest();
            let pk = pow2(k as nat) as int;
            let pk1 = pow2((k + 1) as nat) as int;
            let pp = p as int;
            assert(f * pp < pk1 * pp) by (nonlinear_arith)
                requires
                    f < pk1,
                    pp > 0,
            ;
            assert(pk * pp <= f * pp) by (nonlinear_arith)
                requires
                    pk <= f,
                    pp > 0,
            ;
        }
        sign + (k + 874) * FRACTION_SPAN + (f * p - FRACTION_SPAN)
    }
}

} // verus!
