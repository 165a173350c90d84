//! Single-precision numbers as bit patterns.
//!
//! The template engine counts in single precision, while a configuration
//! document holds 64-bit integers and double-precision numbers.  This module
//! narrows both to the nearest single-precision number, working on the bit
//! patterns alone: one sign bit, eight exponent bits and twenty-three
//! fraction bits for a single; one, eleven and fifty-two for a double.
//!
//! The specification says which pattern comes out ([`single_of_integer`],
//! [`single_of_double`]).  What that pattern is worth is said by
//! [`single_units`], and the laws at the end relate the two: the single that
//! comes out is the input rounded, half to even, to the singles' spacing at
//! its size.
use vstd::arithmetic::div_mod::lemma_fundamental_div_mod;
use vstd::arithmetic::power2::{
    lemma2_to64, lemma2_to64_rest, lemma_pow2_adds, lemma_pow2_pos, lemma_pow2_strictly_increases,
    lemma_pow2_unfold, pow2,
};
use vstd::prelude::*;

verus! {

/// The sign bit of a single-precision pattern.
pub const SIGN_BIT: u32 = 0x8000_0000;

/// The pattern of positive infinity.
pub const INFINITY_BITS: u32 = 0x7f80_0000;

/// The pattern of the quiet not-a-number with an empty payload.
pub const QUIET_NAN_BITS: u32 = 0x7fc0_0000;

/// `n / d` rounded to the nearest whole number; a tie goes to the even neighbour.
pub open spec fn round_half_even(n: nat, d: nat) -> nat
    recommends
        d > 0,
{
    let q = n / d;
    let r = n % d;
    if 2 * r < d || (2 * r == d && q % 2 == 0) {
        q
    } else {
        q + 1
    }
}

/// The place of the leading one bit of `m`: the `e` with `2^e <= m < 2^(e + 1)`.
pub open spec fn leading_exponent(m: nat) -> nat
    decreases m,
{
    if m <= 1 {
        0
    } else {
        1 + leading_exponent(m / 2)
    }
}

/// The whole number `m` scaled to twenty-four bits: exactly where `m` has no
/// more bits than that, rounded half to even where it has.
pub open spec fn significand_of(m: nat) -> nat {
    let e = leading_exponent(m);
    if e <= 23 {
        m * pow2((23 - e) as nat)
    } else {
        round_half_even(m, pow2((e - 23) as nat))
    }
}

/// The pattern, sign bit clear, of the single nearest to the whole number `m`.
///
/// With `e` the leading exponent of `m`, the biased exponent `e + 127` stands
/// above the fraction, which is the significand without its leading bit.  A
/// significand that rounding carried to `2^24` moves the exponent up by one.
pub open spec fn single_of_magnitude(m: nat) -> nat {
    if m == 0 {
        0
    } else {
        (leading_exponent(m) + 126) * 0x80_0000 + significand_of(m)
    }
}

/// The pattern of the single nearest to the integer `i`.
pub open spec fn single_of_integer(i: int) -> nat {
    if i >= 0 {
        single_of_magnitude(i as nat)
    } else {
        0x8000_0000 + single_of_magnitude((-i) as nat)
    }
}

/// The pattern, sign bit clear, of the single nearest to the double with the
/// biased exponent `exponent` (below 2048) and the fraction `fraction` (below `2^52`).
///
/// Infinity stays infinity and a not-a-number stays one: quiet, with the
/// leading bits of its payload.  A double too large for a single becomes
/// infinity.  A double below the normal singles is counted in units of the
/// least single, `2^-149`; zero and the subnormal doubles all become zero.
pub open spec fn single_of_double_magnitude(exponent: nat, fraction: nat) -> nat {
    let significand = 0x10_0000_0000_0000 + fraction;
    if exponent == 2047 {
        if fraction == 0 {
            0x7f80_0000
        } else {
            0x7fc0_0000 + (fraction / 0x2000_0000) % 0x40_0000
        }
    } else if exponent == 0 {
        0
    } else if exponent >= 1151 {
        0x7f80_0000
    } else if exponent >= 897 {
        ((exponent - 897) * 0x80_0000 + round_half_even(significand, 0x2000_0000)) as nat
    } else {
        round_half_even(significand, pow2((926 - exponent) as nat))
    }
}

/// The pattern of the single nearest to the double with the pattern `bits`.
pub open spec fn single_of_double(bits: u64) -> nat {
    let sign = bits as nat / 0x8000_0000_0000_0000;
    let exponent = (bits as nat / 0x10_0000_0000_0000) % 2048;
    let fraction = bits as nat % 0x10_0000_0000_0000;
    sign * 0x8000_0000 + single_of_double_magnitude(exponent, fraction)
}

/// What a single pattern below infinity, sign bit clear, is worth, counted in
/// units of the least single, `2^-149`.
pub open spec fn single_units(bits: nat) -> nat
    recommends
        bits < 0x7f80_0000,
{
    let exponent = bits / 0x80_0000;
    let fraction = bits % 0x80_0000;
    if exponent == 0 {
        fraction
    } else {
        (0x80_0000 + fraction) * pow2((exponent - 1) as nat)
    }
}

/// The leading exponent of `m` is the only `e` with `2^e <= m < 2^(e + 1)`.
pub proof fn lemma_leading_exponent(m: nat, e: nat)
    requires
        pow2(e) <= m < 2 * pow2(e),
    ensures
        leading_exponent(m) == e,
    decreases e,
{
    lemma2_to64();
    if e > 0 {
        lemma_pow2_unfold(e);
        lemma_pow2_pos((e - 1) as nat);
        lemma_leading_exponent(m / 2, (e - 1) as nat);
    }
}

/// A whole number above zero lies between two to its leading exponent and
/// twice that.
pub proof fn lemma_leading_exponent_brackets(m: nat)
    requires
        m > 0,
    ensures
        pow2(leading_exponent(m)) <= m < 2 * pow2(leading_exponent(m)),
    decreases m,
{
    lemma2_to64();
    if m > 1 {
        lemma_leading_exponent_brackets(m / 2);
        lemma_pow2_unfold(leading_exponent(m));
    }
}

/// The significand of a whole number above zero has its leading bit at place
/// twenty-three, or is `2^24` where rounding carried.
pub proof fn lemma_significand_bounds(m: nat)
    requires
        m > 0,
    ensures
        0x80_0000 <= significand_of(m) <= 0x100_0000,
{
    let e = leading_exponent(m);
    lemma_leading_exponent_brackets(m);
    lemma2_to64();
    if e <= 23 {
        let scale = pow2((23 - e) as nat);
        lemma_pow2_adds(e, (23 - e) as nat);
        lemma_pow2_pos((23 - e) as nat);
        assert(pow2(e) * scale <= m * scale < 2 * (pow2(e) * scale)) by (nonlinear_arith)
            requires
                pow2(e) <= m < 2 * pow2(e),
                scale > 0,
        ;
    } else {
        let unit = pow2((e - 23) as nat);
        lemma_pow2_adds((e - 23) as nat, 23);
        lemma_pow2_pos((e - 23) as nat);
        assert(0x80_0000 <= m / unit < 0x100_0000) by (nonlinear_arith)
            requires
                unit * 0x80_0000 <= m < 2 * (unit * 0x80_0000),
                unit > 0,
        ;
    }
}

/// A power of two with an exponent below 64 fits in 64 bits.
proof fn lemma_pow2_bound(k: nat)
    requires
        k < 64,
    ensures
        0 < pow2(k) <= 0x8000_0000_0000_0000,
{
    lemma_pow2_pos(k);
    lemma2_to64_rest();
    if k < 63 {
        lemma_pow2_strictly_increases(k, 63);
    }
}

/// Two to the power `k`.
fn power_of_two(k: u32) -> (p: u64)
    requires
        k < 64,
    ensures
        p == pow2(k as nat),
{
    let mut p: u64 = 1;
    let mut j: u32 = 0;
    proof {
        lemma2_to64();
    }
    while j < k
        invariant
            j <= k,
            k < 64,
            p == pow2(j as nat),
        decreases k - j,
    {
        proof {
            lemma_pow2_unfold((j + 1) as nat);
            lemma_pow2_bound((j + 1) as nat);
        }
        p = 2 * p;
        j = j + 1;
    }
    p
}

/// `n / d` rounded to the nearest whole number, a tie going to the even neighbour.
fn rounded_quotient(n: u64, d: u64) -> (q: u64)
    requires
        0 < d <= 0x4000_0000_0000_0000,
    ensures
        q == round_half_even(n as nat, d as nat),
{
    let q: u64 = n / d;
    let r: u64 = n % d;
    let twice: u64 = 2 * r;
    if twice < d || (twice == d && q % 2 == 0) {
        q
    } else {
        assert(q <= n / 2) by (nonlinear_arith)
            requires
                q == n / d,
                d >= 2,
        ;
        q + 1
    }
}

/// The pattern, sign bit clear, of the single nearest to `m`.
fn narrow_magnitude(m: u64) -> (bits: u32)
    requires
        m > 0,
    ensures
        bits == single_of_magnitude(m as nat),
        bits < 0x8000_0000,
{
    let mut e: u32 = 0;
    let mut p: u64 = 1;
    proof {
        lemma2_to64();
    }
    while m / 2 >= p
        invariant
            p == pow2(e as nat),
            1 <= p <= m,
            e <= 63,
        decreases m - p,
    {
        p = 2 * p;
        e = e + 1;
        proof {
            lemma_pow2_unfold(e as nat);
            if e == 64 {
                lemma2_to64();
            }
        }
    }
    proof {
        lemma_leading_exponent(m as nat, e as nat);
        lemma_significand_bounds(m as nat);
    }
    let significand: u64 = if e <= 23 {
        m * power_of_two(23 - e)
    } else {
        proof {
            lemma_pow2_bound((e - 23) as nat);
            lemma_pow2_strictly_increases((e - 23) as nat, 62);
            lemma2_to64_rest();
        }
        rounded_quotient(m, power_of_two(e - 23))
    };
    let encoded: u64 = (e as u64 + 126) * 0x80_0000 + significand;
    encoded as u32
}

/// The pattern of the single-precision number nearest to `i`.
///
/// Every integer up to `2^24` in size is kept exactly; a larger one is
/// rounded to twenty-four significant bits, a tie going to the even neighbour.
pub fn narrow_integer(i: i64) -> (bits: u32)
    ensures
        bits == single_of_integer(i as int),
{
    if i == 0 {
        0
    } else if i < 0 {
        let magnitude: u64 = (-(i + 1)) as u64 + 1;
        narrow_magnitude(magnitude) + SIGN_BIT
    } else {
        narrow_magnitude(i as u64)
    }
}

/// The pattern of the single-precision number nearest to the
/// double-precision number with the pattern `bits`.
///
/// Rounding is to the nearest single, a tie going to the one with the even
/// fraction.  What lies beyond the largest single becomes infinity, what
/// lies below half the least one becomes zero, and the sign is always kept.
pub fn narrow_double(bits: u64) -> (single: u32)
    ensures
        single == single_of_double(bits),
{
    let sign: u64 = bits / 0x8000_0000_0000_0000;
    let exponent: u64 = (bits / 0x10_0000_0000_0000) % 2048;
    let fraction: u64 = bits % 0x10_0000_0000_0000;
    let significand: u64 = 0x10_0000_0000_0000 + fraction;
    let magnitude: u64 = if exponent == 2047 {
        if fraction == 0 {
            0x7f80_0000
        } else {
            0x7fc0_0000 + (fraction / 0x2000_0000) % 0x40_0000
        }
    } else if exponent == 0 {
        0
    } else if exponent >= 1151 {
        0x7f80_0000
    } else if exponent >= 897 {
        (exponent - 897) * 0x80_0000 + rounded_quotient(significand, 0x2000_0000)
    } else if exponent >= 873 {
        let unit: u64 = power_of_two((926 - exponent) as u32);
        proof {
            lemma_pow2_bound((926 - exponent) as nat);
            lemma_subnormal_bound(exponent as nat, fraction as nat);
            lemma_pow2_strictly_increases((926 - exponent) as nat, 54);
            lemma2_to64_rest();
        }
        rounded_quotient(significand, unit)
    } else {
        proof {
            lemma_vanishing_double(exponent as nat, fraction as nat);
        }
        0
    };
    (sign * 0x8000_0000 + magnitude) as u32
}

/// A double below the normal singles narrows to a subnormal single, or to
/// the least normal one.
proof fn lemma_subnormal_bound(exponent: nat, fraction: nat)
    requires
        1 <= exponent <= 896,
        fraction < 0x10_0000_0000_0000,
    ensures
        single_of_double_magnitude(exponent, fraction) <= 0x80_0000,
{
    let significand = 0x10_0000_0000_0000 + fraction;
    let unit = pow2((926 - exponent) as nat);
    lemma2_to64();
    if exponent < 896 {
        lemma_pow2_strictly_increases(30, (926 - exponent) as nat);
    }
    assert(significand / unit < 0x80_0000) by (nonlinear_arith)
        requires
            unit >= 0x4000_0000,
            significand < 0x20_0000_0000_0000,
    ;
}

/// A double below half the least single narrows to zero.
proof fn lemma_vanishing_double(exponent: nat, fraction: nat)
    requires
        1 <= exponent <= 872,
        fraction < 0x10_0000_0000_0000,
    ensures
        single_of_double_magnitude(exponent, fraction) == 0,
{
    let significand = 0x10_0000_0000_0000 + fraction;
    let unit = pow2((926 - exponent) as nat);
    lemma2_to64_rest();
    if exponent < 872 {
        lemma_pow2_strictly_increases(54, (926 - exponent) as nat);
    }
    assert(significand / unit == 0 && significand % unit == significand) by (nonlinear_arith)
        requires
            significand < unit,
    ;
}

/// Rounding half to even gives the multiple of `d` nearest to `n`: it lies no
/// further from `n` than half of `d`, and where it lies exactly that far, on
/// either side, it is the even multiple.
pub proof fn lemma_round_half_even_is_nearest(n: nat, d: nat)
    requires
        d > 0,
    ensures
        2 * (round_half_even(n, d) * d - n) <= d,
        2 * (n - round_half_even(n, d) * d) <= d,
        2 * (round_half_even(n, d) * d - n) == d || 2 * (n - round_half_even(n, d) * d) == d
            ==> round_half_even(n, d) % 2 == 0,
{
    let q = n / d;
    let r = n % d;
    lemma_fundamental_div_mod(n as int, d as int);
    assert((q + 1) * d == q * d + d) by (nonlinear_arith);
    assert(d * q == q * d) by (nonlinear_arith);
}

/// What a pattern with the significand `significand` above the exponent
/// field `exponent` is worth: the significand times two to the exponent.
proof fn lemma_units_of_pattern(exponent: nat, significand: nat)
    requires
        0x80_0000 <= significand <= 0x100_0000,
    ensures
        single_units(exponent * 0x80_0000 + significand) == significand * pow2(exponent),
{
    let bits = exponent * 0x80_0000 + significand;
    if significand < 0x100_0000 {
        assert(bits / 0x80_0000 == exponent + 1 && bits % 0x80_0000 == significand - 0x80_0000);
    } else {
        assert(bits / 0x80_0000 == exponent + 2 && bits % 0x80_0000 == 0);
        lemma_pow2_unfold(exponent + 1);
        assert(0x80_0000 * (2 * pow2(exponent)) == 0x100_0000 * pow2(exponent))
            by (nonlinear_arith);
    }
}

/// What the narrowed whole number is worth.
///
/// A number of at most twenty-four bits is kept: the single is worth the
/// number itself.  A larger one is rounded to the singles' spacing at its
/// size, `2^(e - 23)` for the leading exponent `e`: the single is worth the
/// nearest multiple of the spacing, by [`lemma_round_half_even_is_nearest`].
/// Either way the pattern lies below infinity.
pub proof fn lemma_narrowed_integer_value(m: nat)
    requires
        0 < m < pow2(64),
    ensures
        single_of_magnitude(m) < 0x7f80_0000,
        leading_exponent(m) <= 23 ==> single_units(single_of_magnitude(m)) == m * pow2(149),
        leading_exponent(m) > 23 ==> single_units(single_of_magnitude(m)) == round_half_even(
            m,
            pow2((leading_exponent(m) - 23) as nat),
        ) * pow2((leading_exponent(m) - 23) as nat) * pow2(149),
{
    let e = leading_exponent(m);
    let significand = significand_of(m);
    lemma_leading_exponent_brackets(m);
    lemma_significand_bounds(m);
    if e > 64 {
        lemma_pow2_strictly_increases(64, e);
    }
    lemma_units_of_pattern(e + 126, significand);
    if e <= 23 {
        let scale = pow2((23 - e) as nat);
        lemma_pow2_adds((23 - e) as nat, e + 126);
        assert(m * scale * pow2(e + 126) == m * (scale * pow2(e + 126))) by (nonlinear_arith);
    } else {
        let unit = pow2((e - 23) as nat);
        lemma_pow2_adds((e - 23) as nat, 149);
        assert(significand * unit * pow2(149) == significand * (unit * pow2(149)))
            by (nonlinear_arith);
    }
}

/// What the narrowed double is worth, where the double is a normal one.
///
/// The double is worth its significand times `2^(exponent - 1)`, counted in
/// units of the least double, `2^-1074`, of which the least single holds
/// `2^925`.  The single is worth the same with the significand rounded to
/// the bits that a single has room for at that size: twenty-nine fewer for a
/// normal single, more for a subnormal one.  Where the rounded double lies
/// beyond the largest single, the pattern is that of infinity.
pub proof fn lemma_narrowed_double_value(exponent: nat, fraction: nat)
    requires
        1 <= exponent <= 2046,
        fraction < 0x10_0000_0000_0000,
    ensures
        ({
            let significand = 0x10_0000_0000_0000 + fraction;
            let single = single_of_double_magnitude(exponent, fraction);
            let dropped: nat = if exponent >= 897 {
                29
            } else {
                (926 - exponent) as nat
            };
            let rounded = round_half_even(significand, pow2(dropped)) * pow2(dropped);
            &&& single <= 0x7f80_0000
            &&& single < 0x7f80_0000 ==> single_units(single) * pow2(925) == rounded * pow2(
                (exponent - 1) as nat,
            )
            &&& single == 0x7f80_0000 <==> exponent >= 1151 || (exponent == 1150 && rounded
                == pow2(53))
        }),
{
    let significand = 0x10_0000_0000_0000 + fraction;
    let single = single_of_double_magnitude(exponent, fraction);
    lemma2_to64();
    lemma2_to64_rest();
    if exponent >= 1151 {
    } else if exponent >= 897 {
        let carried = round_half_even(significand, 0x2000_0000);
        let above = (exponent - 897) as nat;
        assert(0x80_0000 <= carried <= 0x100_0000);
        assert(carried * 0x2000_0000 == 0x20_0000_0000_0000 <==> carried == 0x100_0000);
        if single < 0x7f80_0000 {
            lemma_units_of_pattern(above, carried);
            lemma_pow2_adds(above, 925);
            lemma_pow2_adds(29, (exponent - 1) as nat);
            assert(carried * pow2(above) * pow2(925) == carried * (pow2(above) * pow2(925)))
                by (nonlinear_arith);
            assert(carried * pow2(29) * pow2((exponent - 1) as nat) == carried * (pow2(29) * pow2(
                (exponent - 1) as nat,
            ))) by (nonlinear_arith);
        }
    } else {
        let dropped = (926 - exponent) as nat;
        let carried = round_half_even(significand, pow2(dropped));
        lemma_subnormal_bound(exponent, fraction);
        assert(single / 0x80_0000 == 0 ==> single_units(single) == single);
        if single == 0x80_0000 {
            assert(single_units(single) == 0x80_0000 * pow2(0));
        }
        lemma_pow2_adds(dropped, (exponent - 1) as nat);
        assert(carried * pow2(dropped) * pow2((exponent - 1) as nat) == carried * (pow2(dropped)
            * pow2((exponent - 1) as nat))) by (nonlinear_arith);
    }
}

} // verus!
