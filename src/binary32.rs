//! IEEE-754 binary32 values, modelled by their 32-bit patterns.
//!
//! Bit 31 is the sign, bits 30..23 the biased exponent, bits 22..0 the
//! fraction. Everything here is stated arithmetically on the pattern.
use vstd::prelude::*;
use vstd::arithmetic::power2::*;
use vstd::arithmetic::div_mod::{lemma_fundamental_div_mod, lemma_mod_pos_bound};

verus! {

/// Weight of the sign bit.
pub const SIGN_BIT: u32 = 0x8000_0000;

/// Pattern of positive infinity; every magnitude above it is a NaN.
pub const INFINITY_BITS: u32 = 0x7f80_0000;

/// Pattern of `1.0`.
pub const ONE_BITS: u32 = 0x3f80_0000;

/// Weight of the lowest exponent bit, `2^23`.
pub const HIDDEN_BIT: u32 = 0x80_0000;

/// The pattern with its sign bit cleared.
pub open spec fn magnitude(b: u32) -> nat {
    (b % 0x8000_0000) as nat
}

/// The sign bit is set.
pub open spec fn sign_set(b: u32) -> bool {
    b >= 0x8000_0000
}

/// The pattern encodes a NaN: all exponent bits set and a fraction that is not zero.
pub open spec fn is_nan(b: u32) -> bool {
    magnitude(b) > 0x7f80_0000
}

/// The pattern encodes `+0.0` or `-0.0`.
pub open spec fn is_zero(b: u32) -> bool {
    magnitude(b) == 0
}

/// A key whose integer order is the numeric order of the encoded values, for
/// every pattern that is not a NaN (both zeros get key 0, infinities the
/// extreme keys).
pub open spec fn order_key(b: u32) -> int {
    if sign_set(b) {
        -magnitude(b)
    } else {
        magnitude(b) as int
    }
}

/// IEEE equality: never for a NaN, and `+0.0 == -0.0`.
pub open spec fn float_eq(a: u32, b: u32) -> bool {
    !is_nan(a) && !is_nan(b) && order_key(a) == order_key(b)
}

/// IEEE comparison: none when either side is a NaN.
pub open spec fn float_compare(a: u32, b: u32) -> Option<core::cmp::Ordering> {
    if is_nan(a) || is_nan(b) {
        None
    } else if order_key(a) < order_key(b) {
        Some(core::cmp::Ordering::Less)
    } else if order_key(a) == order_key(b) {
        Some(core::cmp::Ordering::Equal)
    } else {
        Some(core::cmp::Ordering::Greater)
    }
}

/// The encoded value is below zero (`v < 0.0`): false for both zeros and NaNs.
pub open spec fn is_below_zero(b: u32) -> bool {
    !is_nan(b) && order_key(b) < 0
}

/// `v.abs()`: the sign bit cleared.
pub open spec fn abs_bits(b: u32) -> u32 {
    magnitude(b) as u32
}

/// `-v`: the sign bit flipped.
pub open spec fn negate_bits(b: u32) -> u32 {
    if sign_set(b) {
        (b - 0x8000_0000) as u32
    } else {
        (b + 0x8000_0000) as u32
    }
}

/// Position of the highest set bit of `a` (0 for `a < 2`).
pub open spec fn log2(a: nat) -> nat
    decreases a,
{
    if a < 2 {
        0
    } else {
        1 + log2(a / 2)
    }
}

/// The 24-bit significand of `a >= 1`, rounded to nearest with ties to even.
/// It lies in `[2^23, 2^24]`; `2^24` means rounding carried into the exponent.
pub open spec fn rounded_significand(a: nat) -> nat {
    let p = log2(a);
    if p <= 23 {
        a * pow2((23 - p) as nat)
    } else {
        let d = pow2((p - 23) as nat);
        let q = a / d;
        let r = a % d;
        if 2 * r > d || (2 * r == d && q % 2 == 1) {
            q + 1
        } else {
            q
        }
    }
}

/// The pattern of `x as f32`: the binary32 value nearest to `x`, ties to even.
pub open spec fn float_of_int(x: int) -> u32 {
    if x == 0 {
        0
    } else {
        let a = (if x < 0 { -x } else { x }) as nat;
        let sign: int = if x < 0 { 0x8000_0000 } else { 0 };
        (sign + (log2(a) + 126) * 0x80_0000 + rounded_significand(a)) as u32
    }
}

/// `2^p <= a < 2^(p+1)` pins `p` as the highest set bit of `a`.
proof fn lemma_log2_unique(a: nat, p: nat)
    requires
        pow2(p) <= a < pow2(p + 1),
    ensures
        log2(a) == p,
    decreases p,
{
    lemma_pow2_unfold(p + 1);
    if p == 0 {
        lemma2_to64();
    } else {
        lemma_pow2_unfold(p);
        lemma_log2_unique(a / 2, (p - 1) as nat);
    }
}

/// The significand, the exponent and the sign fit in the pattern.
proof fn lemma_float_of_int_fields(a: nat, p: nat)
    requires
        pow2(p) <= a < pow2(p + 1),
        p <= 31,
    ensures
        log2(a) == p,
        0x80_0000 <= rounded_significand(a) <= 0x100_0000,
{
    lemma_log2_unique(a, p);
    lemma2_to64();
    lemma_pow2_unfold(p + 1);
    if p <= 23 {
        lemma_pow2_adds(p, (23 - p) as nat);
        let s = pow2((23 - p) as nat);
        assert(p + (23 - p) as nat == 23);
        assert(pow2(p) * s == 0x80_0000);
        assert(pow2(p) * s <= a * s < pow2(p + 1) * s) by (nonlinear_arith)
            requires
                pow2(p) <= a < pow2(p + 1),
                s > 0,
        ;
        assert(pow2(p + 1) * s == 0x100_0000) by (nonlinear_arith)
            requires
                pow2(p + 1) == 2 * pow2(p),
                pow2(p) * s == 0x80_0000,
        ;
        assert(rounded_significand(a) == a * s);
    } else {
        let k = (p - 23) as nat;
        lemma_pow2_adds(k, 23);
        lemma_pow2_pos(k);
        let d = pow2(k);
        assert(d * 0x80_0000 <= a < d * 0x100_0000);
        assert(0x80_0000 <= a / d < 0x100_0000) by (nonlinear_arith)
            requires
                d * 0x80_0000 <= a < d * 0x100_0000,
                d > 0,
        ;
        assert(rounded_significand(a) <= a / d + 1);
    }
}

/// `log2` finds the highest set bit.
proof fn lemma_log2_bounds(a: nat)
    requires
        a >= 1,
    ensures
        pow2(log2(a)) <= a < pow2(log2(a) + 1),
    decreases a,
{
    lemma_pow2_unfold(log2(a) + 1);
    if a < 2 {
        lemma2_to64();
    } else {
        lemma_log2_bounds(a / 2);
        lemma_pow2_unfold(log2(a));
    }
}

/// An `i32` converts to a finite pattern, never a NaN.
pub proof fn lemma_float_of_int_is_number(x: i32)
    ensures
        !is_nan(float_of_int(x as int)),
        x != 0 ==> !is_zero(float_of_int(x as int)),
        sign_set(float_of_int(x as int)) <==> x < 0,
{
    if x != 0 {
        let a = (if x < 0 { -x } else { x as int }) as nat;
        lemma_log2_bounds(a);
        lemma2_to64();
        let p = log2(a);
        if p > 31 {
            lemma_pow2_strictly_increases(31, p);
        }
        lemma_float_of_int_fields(a, p);
    }
}

/// The value of a finite pattern times `2^149`, which makes every finite
/// binary32 value an integer: `(2^23 + fraction) * 2^(e - 150)` for a biased
/// exponent `e >= 1`, `fraction * 2^-149` for a subnormal.
pub open spec fn scaled_value(b: u32) -> int {
    let e = magnitude(b) / 0x80_0000;
    let f = magnitude(b) % 0x80_0000;
    let m: int = if e == 0 {
        f as int
    } else {
        ((0x80_0000 + f) * pow2((e - 1) as nat)) as int
    };
    if sign_set(b) {
        -m
    } else {
        m
    }
}

/// The conversion of an `i32` to binary32 is exact up to `2^24` in magnitude,
/// and otherwise off by at most half a unit in the last place of the binade
/// of `x` (`2^(log2|x| - 23)`).
pub proof fn lemma_conversion_accuracy(x: i32)
    ensures
        -0x100_0000 <= x <= 0x100_0000 ==> scaled_value(float_of_int(x as int)) == x * pow2(149),
        x != 0 ==> 2 * abs_diff(scaled_value(float_of_int(x as int)), x * pow2(149)) <= pow2(
            log2(abs_int(x as int)) + 126,
        ),
{
    lemma2_to64();
    if x != 0 {
        let a = abs_int(x as int);
        lemma_log2_bounds(a);
        let p = log2(a);
        if p > 31 {
            lemma_pow2_strictly_increases(31, p);
        }
        lemma_float_of_int_fields(a, p);
        let sig = rounded_significand(a);
        let b = float_of_int(x as int);
        let e = (magnitude(b) / 0x80_0000) as nat;
        // the biased exponent grows by one when rounding carried
        assert(magnitude(b) == (p + 126) * 0x80_0000 + sig);
        assert(sig < 0x100_0000 ==> e == p + 127 && magnitude(b) % 0x80_0000 == sig - 0x80_0000);
        assert(sig == 0x100_0000 ==> e == p + 128 && magnitude(b) % 0x80_0000 == 0);
        lemma_pow2_adds(p + 126, 1);
        let m = if e == 0 { 0 } else { (0x80_0000 + magnitude(b) % 0x80_0000) * pow2((e - 1) as nat) };
        assert(m == sig * pow2(p + 126)) by (nonlinear_arith)
            requires
                sig < 0x100_0000 ==> e == p + 127 && magnitude(b) % 0x80_0000 == sig - 0x80_0000,
                sig == 0x100_0000 ==> e == p + 128 && magnitude(b) % 0x80_0000 == 0,
                sig <= 0x100_0000,
                m == (if e == 0 { 0 } else { (0x80_0000 + magnitude(b) % 0x80_0000) * pow2((e - 1) as nat) }),
                pow2(p + 127) == pow2(p + 126) * 2,
        ;
        let sv = (sig * pow2(p + 126)) as int;
        let xs = (a * pow2(149)) as int;
        lemma_float_of_int_is_number(x);
        assert(scaled_value(b) == (if x < 0 { -sv } else { sv }));
        assert(x * pow2(149) == (if x < 0 { -xs } else { xs })) by (nonlinear_arith)
            requires
                a == (if x < 0 { -x } else { x as int }),
                xs == a * pow2(149),
        ;
        lemma_pow2_pos(149);
        lemma_pow2_pos(p + 126);
        if p <= 23 {
            let k = (23 - p) as nat;
            lemma_pow2_adds(k, p + 126);
            assert(k + (p + 126) == 149);
            assert(sv == xs) by (nonlinear_arith)
                requires
                    sig == a * pow2(k),
                    pow2(149) == pow2(k) * pow2(p + 126),
                    sv == sig * pow2(p + 126),
                    xs == a * pow2(149),
            ;
        } else {
            let k = (p - 23) as nat;
            lemma_pow2_adds(k, 149);
            assert(k + 149 == p + 126);
            lemma_pow2_pos(k);
            let d = pow2(k);
            let q = a / d;
            let r = a % d;
            lemma_fundamental_div_mod(a as int, d as int);
            lemma_mod_pos_bound(a as int, d as int);
            assert(2 * abs_diff((sig * d) as int, a as int) <= d) by (nonlinear_arith)
                requires
                    a == d * q + r,
                    0 <= r < d,
                    sig == q || sig == q + 1,
                    sig == q + 1 ==> 2 * r >= d,
                    sig == q ==> 2 * r <= d,
            ;
            assert(2 * abs_diff(sv, xs) <= pow2(p + 126)) by (nonlinear_arith)
                requires
                    2 * abs_diff((sig * d) as int, a as int) <= d,
                    pow2(p + 126) == d * pow2(149),
                    pow2(149) > 0,
                    sv == sig * pow2(p + 126),
                    xs == a * pow2(149),
            ;
            if a <= 0x100_0000 {
                if p > 24 {
                    lemma_pow2_strictly_increases(24, p);
                }
                assert(d == 2);
                assert(a == 0x100_0000);
                assert(q == 0x80_0000 && r == 0);
                assert(sv == xs) by (nonlinear_arith)
                    requires
                        sig == q,
                        a == d * q,
                        pow2(p + 126) == d * pow2(149),
                        sv == sig * pow2(p + 126),
                        xs == a * pow2(149),
                ;
            }
        }
    }
}

/// `|x|`.
pub open spec fn abs_int(x: int) -> nat {
    (if x < 0 { -x } else { x }) as nat
}

/// `|x - y|`.
pub open spec fn abs_diff(x: int, y: int) -> int {
    if x < y {
        y - x
    } else {
        x - y
    }
}

/// `v.is_nan()`.
pub fn nan(b: u32) -> (r: bool)
    ensures
        r == is_nan(b),
{
    b % SIGN_BIT > INFINITY_BITS
}

/// `v == 0.0`, for either zero.
pub fn zero(b: u32) -> (r: bool)
    ensures
        r == is_zero(b),
{
    b % SIGN_BIT == 0
}

/// [`order_key`] of the pattern.
fn key(b: u32) -> (r: i64)
    ensures
        r == order_key(b),
{
    if b >= SIGN_BIT {
        -((b - SIGN_BIT) as i64)
    } else {
        b as i64
    }
}

/// `a == b` on the encoded floats.
pub fn equal(a: u32, b: u32) -> (r: bool)
    ensures
        r == float_eq(a, b),
{
    !nan(a) && !nan(b) && key(a) == key(b)
}

/// `a.partial_cmp(&b)` on the encoded floats.
pub fn compare(a: u32, b: u32) -> (r: Option<core::cmp::Ordering>)
    ensures
        r == float_compare(a, b),
{
    if nan(a) || nan(b) {
        None
    } else {
        let ka = key(a);
        let kb = key(b);
        if ka < kb {
            Some(core::cmp::Ordering::Less)
        } else if ka == kb {
            Some(core::cmp::Ordering::Equal)
        } else {
            Some(core::cmp::Ordering::Greater)
        }
    }
}

/// `v < 0.0`.
pub fn below_zero(b: u32) -> (r: bool)
    ensures
        r == is_below_zero(b),
{
    !nan(b) && key(b) < 0
}

/// `v.abs()`.
pub fn abs(b: u32) -> (r: u32)
    ensures
        r == abs_bits(b),
{
    b % SIGN_BIT
}

/// `-v`.
pub fn negate(b: u32) -> (r: u32)
    ensures
        r == negate_bits(b),
{
    if b >= SIGN_BIT {
        b - SIGN_BIT
    } else {
        b + SIGN_BIT
    }
}

/// Computes the pattern of `x as f32` from the integer alone.
pub fn float_bits_of_int(x: i32) -> (r: u32)
    ensures
        r == float_of_int(x as int),
{
    if x == 0 {
        return 0;
    }
    let sign: u32 = if x < 0 { SIGN_BIT } else { 0 };
    let a: u32 = if x == i32::MIN {
        SIGN_BIT
    } else if x < 0 {
        (-x) as u32
    } else {
        x as u32
    };
    let mut p: u32 = 0;
    let mut pw: u32 = 1;
    proof {
        lemma2_to64();
    }
    while pw <= a / 2
        invariant
            1 <= a <= 0x8000_0000,
            pw == pow2(p as nat),
            pw <= a,
            p <= 31,
        decreases a - pw,
    {
        proof {
            lemma_pow2_unfold((p + 1) as nat);
            lemma2_to64();
        }
        pw = pw * 2;
        p = p + 1;
    }
    proof {
        lemma_pow2_unfold((p + 1) as nat);
        lemma_float_of_int_fields(a as nat, p as nat);
    }
    let sig: u32 = if p <= 23 {
        proof {
            lemma_pow2_subtracts(p as nat, 23);
        }
        let scale: u32 = HIDDEN_BIT / pw;
        assert(a * scale <= 0x100_0000);
        a * scale
    } else {
        proof {
            lemma_pow2_subtracts(23, p as nat);
        }
        let d: u32 = pw / HIDDEN_BIT;
        let q: u32 = a / d;
        let r: u32 = a % d;
        if r > d - r || (r == d - r && q % 2 == 1) {
            q + 1
        } else {
            q
        }
    };
    sign + (p + 126) * HIDDEN_BIT + sig
}

} // verus!
