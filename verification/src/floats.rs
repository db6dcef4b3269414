//! Floating-point literal values, held as the bits of an IEEE-754 double,
//! and the conversions between them and integers that the type rules apply
//! to constant values (the same conversions as Rust's `as`).
use vstd::arithmetic::power2::{lemma_pow2_adds, lemma_pow2_strictly_increases, pow2};
use vstd::bits::{lemma_u64_pow2_no_overflow, lemma_u64_shl_is_mul, lemma_u64_shr_is_div};
use vstd::prelude::*;

verus! {

/// The sign bit of a double.
pub open spec fn f64_negative(b: u64) -> bool {
    b >> 63u64 == 1
}

/// The biased exponent field of a double.
pub open spec fn f64_exponent(b: u64) -> int {
    ((b >> 52u64) & 0x7ffu64) as int
}

/// The fraction field of a double.
pub open spec fn f64_fraction(b: u64) -> int {
    (b & 0xf_ffff_ffff_ffffu64) as int
}

/// Whether a double is zero (of either sign).
pub open spec fn f64_is_zero(b: u64) -> bool {
    f64_exponent(b) == 0 && f64_fraction(b) == 0
}

/// Whether a double is not a number.
pub open spec fn f64_is_nan(b: u64) -> bool {
    f64_exponent(b) == 2047 && f64_fraction(b) != 0
}

/// A double converted to `i32` as `as` does: NaN becomes 0, other values
/// are truncated toward zero and saturate at the bounds of `i32`. The
/// magnitude of a normal double is `(2^52 + fraction) * 2^(exponent - 1075)`,
/// so its integer part, below `2^31`, is that mantissa divided by
/// `2^(1075 - exponent)`.
pub open spec fn f64_to_i32(b: u64) -> i32 {
    let e = f64_exponent(b);
    if f64_is_nan(b) {
        0
    } else if e < 1023 {
        0
    } else if e >= 1023 + 31 {
        if f64_negative(b) { i32::MIN } else { i32::MAX }
    } else {
        let m = (pow2(52) + f64_fraction(b)) / (pow2((1075 - e) as nat) as int);
        if f64_negative(b) { (-m) as i32 } else { m as i32 }
    }
}

/// The position of the highest set bit of a positive number.
pub open spec fn top_bit(m: nat) -> nat
    decreases m,
{
    if m <= 1 {
        0
    } else {
        top_bit(m / 2) + 1
    }
}

/// The double whose value is the integer `v`, for `|v| <= 2^31` (exact in
/// a double): sign, exponent `1023 + p` where `2^p` is the highest power of
/// two not above `|v|`, and the bits of `|v|` below that one as fraction.
pub open spec fn f64_bits_of_int(v: int) -> u64 {
    if v == 0 {
        0
    } else {
        let m: nat = if v < 0 { (-v) as nat } else { v as nat };
        let p = top_bit(m);
        let sign: int = if v < 0 { pow2(63) as int } else { 0 };
        (sign + (1023 + p) * pow2(52) + (m * pow2((52 - p) as nat) - pow2(52))) as u64
    }
}

proof fn lemma_top_bit_bounds(m: nat)
    requires
        m >= 1,
    ensures
        pow2(top_bit(m)) <= m < pow2(top_bit(m) + 1),
    decreases m,
{
    if m > 1 {
        lemma_top_bit_bounds(m / 2);
        vstd::arithmetic::power2::lemma_pow2_unfold(top_bit(m / 2) + 1);
        vstd::arithmetic::power2::lemma_pow2_unfold(top_bit(m / 2) + 2);
    } else {
        vstd::arithmetic::power2::lemma2_to64();
    }
}

/// The truth value of a double: it is true unless it is zero.
pub fn f64_truth(b: u64) -> (r: bool)
    ensures
        r == !f64_is_zero(b),
{
    let e = (b >> 52u64) & 0x7ffu64;
    let f = b & 0xf_ffff_ffff_ffffu64;
    !(e == 0 && f == 0)
}

/// The double whose value is the integer `v`, as `v as f64` gives it.
pub fn f64_bits_from_i32(v: i32) -> (b: u64)
    ensures
        b == f64_bits_of_int(v as int),
{
    if v == 0 {
        return 0;
    }
    let m: u64 = if v < 0 { (0i64 - (v as i64)) as u64 } else { v as u64 };
    let ghost mn = m as nat;
    assert(1 <= m <= 0x8000_0000u64);
    proof {
        lemma_top_bit_bounds(mn);
        vstd::arithmetic::power2::lemma2_to64();
        if top_bit(mn) > 31 {
            lemma_pow2_strictly_increases(31, top_bit(mn));
        }
    }
    let mut p: u64 = 0;
    let mut t: u64 = m;
    while t > 1
        invariant
            1 <= t,
            top_bit(mn) == top_bit(t as nat) + p,
            top_bit(mn) <= 31,
        decreases t,
    {
        t = t / 2;
        p = p + 1;
    }
    assert(p == top_bit(mn));
    let shift = 52 - p;
    proof {
        vstd::arithmetic::power2::lemma2_to64_rest();
        lemma_pow2_adds(p as nat, shift as nat);
        lemma_pow2_adds((p + 1) as nat, shift as nat);
        assert(pow2(53) == 2 * pow2(52)) by { vstd::arithmetic::power2::lemma_pow2_unfold(53); }
        let d = pow2(shift as nat);
        let hi = pow2((p + 1) as nat);
        let lo = pow2(p as nat);
        assert(hi * d == pow2(53));
        assert(lo * d == pow2(52));
        vstd::arithmetic::power2::lemma_pow2_pos(shift as nat);
        assert(m * d < pow2(53)) by (nonlinear_arith)
            requires
                m < hi,
                hi * d == pow2(53),
                d > 0;
        assert(m * d >= pow2(52)) by (nonlinear_arith)
            requires
                m >= lo,
                lo * d == pow2(52),
                d > 0;
        lemma_u64_shl_is_mul(m, shift);
    }
    let scaled = m << shift;
    let fraction = scaled - 0x10_0000_0000_0000u64;
    let exponent = 1023 + p;
    let sign_bits: u64 = if v < 0 { 0x8000_0000_0000_0000u64 } else { 0 };
    proof {
        assert(pow2(63) == 0x8000_0000_0000_0000) by { vstd::arithmetic::power2::lemma2_to64_rest(); }
    }
    sign_bits + exponent * 0x10_0000_0000_0000u64 + fraction
}

/// A double converted to `i32`, as `as` converts it.
pub fn f64_to_i32_exec(b: u64) -> (r: i32)
    ensures
        r == f64_to_i32(b),
{
    let e = (b >> 52u64) & 0x7ffu64;
    let f = b & 0xf_ffff_ffff_ffffu64;
    let negative = (b >> 63u64) == 1;
    assert(e <= 2047) by (bit_vector)
        requires e == (b >> 52u64) & 0x7ffu64;
    assert(f < 0x10_0000_0000_0000u64) by (bit_vector)
        requires f == b & 0xf_ffff_ffff_ffffu64;
    if e == 2047 && f != 0 {
        0
    } else if e < 1023 {
        0
    } else if e >= 1023 + 31 {
        if negative { i32::MIN } else { i32::MAX }
    } else {
        let mantissa = f | 0x10_0000_0000_0000u64;
        let shift = 1075 - e;
        let m = mantissa >> shift;
        proof {
            assert(mantissa == f + 0x10_0000_0000_0000u64) by (bit_vector)
                requires
                    mantissa == f | 0x10_0000_0000_0000u64,
                    f < 0x10_0000_0000_0000u64;
            lemma_u64_shr_is_div(mantissa, shift);
            vstd::arithmetic::power2::lemma2_to64();
            vstd::arithmetic::power2::lemma2_to64_rest();
            let d = pow2(shift as nat);
            lemma_pow2_adds(31, shift as nat);
            if 31 + shift > 53 {
                lemma_pow2_strictly_increases(53, (31 + shift) as nat);
            }
            assert(mantissa < pow2(31) * d);
            assert(d > 0) by { vstd::arithmetic::power2::lemma_pow2_pos(shift as nat); }
            assert(m < pow2(31)) by (nonlinear_arith)
                requires
                    m == mantissa as nat / d,
                    mantissa < pow2(31) * d,
                    d > 0;
        }
        if negative { -(m as i32) } else { m as i32 }
    }
}

proof fn lemma_fields_of_parts(b: u64, s: u64, e: u64, fr: u64)
    requires
        s <= 1,
        e < 2048,
        fr < 0x10_0000_0000_0000u64,
        b == s * 0x8000_0000_0000_0000u64 + e * 0x10_0000_0000_0000u64 + fr,
    ensures
        f64_exponent(b) == e,
        f64_fraction(b) == fr,
        f64_negative(b) == (s == 1),
{
    assert((b >> 52u64) & 0x7ffu64 == e && b & 0xf_ffff_ffff_ffffu64 == fr && ((b >> 63u64 == 1) == (s == 1)))
        by (bit_vector)
        requires
            s <= 1,
            e < 2048,
            fr < 0x10_0000_0000_0000u64,
            b == s * 0x8000_0000_0000_0000u64 + e * 0x10_0000_0000_0000u64 + fr;
}

/// Converting an `i32` to a double and the double back to `i32` gives the
/// integer back, and the double is zero exactly when the integer is.
pub proof fn law_int_float_round_trip(v: i32)
    ensures
        f64_to_i32(f64_bits_of_int(v as int)) == v,
        f64_is_zero(f64_bits_of_int(v as int)) <==> v == 0,
{
    vstd::arithmetic::power2::lemma2_to64();
    vstd::arithmetic::power2::lemma2_to64_rest();
    if v == 0 {
        assert((0u64 >> 52u64) & 0x7ffu64 == 0 && 0u64 & 0xf_ffff_ffff_ffffu64 == 0) by (bit_vector);
    } else {
        let m: nat = if v < 0 { (-v) as nat } else { v as nat };
        let p = top_bit(m);
        lemma_top_bit_bounds(m);
        assert(m <= pow2(31));
        if p > 31 {
            lemma_pow2_strictly_increases(31, p);
        }
        let shift = (52 - p) as nat;
        let d = pow2(shift);
        lemma_pow2_adds(p, shift);
        lemma_pow2_adds(p + 1, shift);
        vstd::arithmetic::power2::lemma_pow2_unfold(53);
        vstd::arithmetic::power2::lemma_pow2_pos(shift);
        let lo = pow2(p);
        let hi = pow2(p + 1);
        assert(m * d < pow2(53)) by (nonlinear_arith)
            requires
                m < hi,
                hi * d == pow2(53),
                d > 0;
        assert(m * d >= pow2(52)) by (nonlinear_arith)
            requires
                m >= lo,
                lo * d == pow2(52),
                d > 0;
        let s: u64 = if v < 0 { 1 } else { 0 };
        let e: u64 = (1023 + p) as u64;
        let fr: u64 = (m * d - pow2(52)) as u64;
        let b = f64_bits_of_int(v as int);
        assert(b == s * 0x8000_0000_0000_0000u64 + e * 0x10_0000_0000_0000u64 + fr);
        lemma_fields_of_parts(b, s, e, fr);
        if p == 31 {
            assert(m == pow2(31));
            assert(v == i32::MIN);
        } else {
            assert((pow2(52) + fr) as int == m * d);
            assert((m * d) / d == m) by (nonlinear_arith)
                requires
                    d > 0;
        }
    }
}

} // verus!
