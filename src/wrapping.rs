//! Two's-complement 32-bit integer arithmetic, stated over mathematical integers.
use vstd::prelude::*;
use vstd::arithmetic::power::*;
use vstd::arithmetic::div_mod::*;
use vstd::arithmetic::mul::*;

verus! {

/// Number of distinct `i32` values.
pub open spec fn modulus() -> int {
    0x1_0000_0000
}

/// The `i32` congruent to `x` modulo `2^32`: what native wrapping arithmetic yields.
pub open spec fn wrap_i32(x: int) -> i32 {
    let m = x % modulus();
    if m > i32::MAX {
        (m - modulus()) as i32
    } else {
        m as i32
    }
}

/// `|x|`.
pub open spec fn abs(x: int) -> int {
    if x < 0 {
        -x
    } else {
        x
    }
}

/// The remainder of division truncated toward zero; it takes the sign of `a`.
pub open spec fn trunc_rem(a: int, b: int) -> int {
    let m = abs(a) % abs(b);
    if a < 0 {
        -m
    } else {
        m
    }
}

/// `base` raised to `exp`, wrapped to 32 bits.
pub open spec fn wrapping_pow_spec(base: int, exp: nat) -> i32 {
    wrap_i32(pow(base, exp))
}

/// Wrapping keeps the residue modulo `2^32`.
pub proof fn lemma_wrap_residue(x: int)
    ensures
        (wrap_i32(x) as int) % modulus() == x % modulus(),
        i32::MIN <= x <= i32::MAX ==> wrap_i32(x) == x,
{
    lemma_fundamental_div_mod(x, modulus());
    let m = x % modulus();
    if m > i32::MAX {
        lemma_mod_sub_multiples_vanish(m, modulus());
    }
    lemma_mod_twice(x, modulus());
    if i32::MIN <= x <= i32::MAX {
        if x < 0 {
            lemma_mod_add_multiples_vanish(x, modulus());
            lemma_small_mod((x + modulus()) as nat, modulus() as nat);
        } else {
            lemma_small_mod(x as nat, modulus() as nat);
        }
    }
}

/// Two integers with the same residue wrap to the same `i32`.
pub proof fn lemma_wrap_same_residue(x: int, y: int)
    requires
        x % modulus() == y % modulus(),
    ensures
        wrap_i32(x) == wrap_i32(y),
{
}

/// `a.wrapping_add(b)` is the wrapped sum.
pub fn wrapping_add(a: i32, b: i32) -> (r: i32)
    ensures
        r == wrap_i32(a + b),
{
    proof {
        lemma_wrap_residue(a + b);
        lemma_mod_add_multiples_vanish(a + b, modulus());
        lemma_mod_sub_multiples_vanish(a + b, modulus());
        lemma_wrap_residue(a + b + modulus());
        lemma_wrap_residue(a + b - modulus());
    }
    let r = a.wrapping_add(b);
    proof {
        lemma_wrap_same_residue(r as int, a + b);
    }
    r
}

/// `a.wrapping_sub(b)` is the wrapped difference.
pub fn wrapping_sub(a: i32, b: i32) -> (r: i32)
    ensures
        r == wrap_i32(a - b),
{
    proof {
        lemma_wrap_residue(a - b);
        lemma_mod_add_multiples_vanish(a - b, modulus());
        lemma_mod_sub_multiples_vanish(a - b, modulus());
        lemma_wrap_residue(a - b + modulus());
        lemma_wrap_residue(a - b - modulus());
    }
    let r = a.wrapping_sub(b);
    proof {
        lemma_wrap_same_residue(r as int, a - b);
    }
    r
}

/// `a.wrapping_mul(b)` is the wrapped product.
pub fn wrapping_mul(a: i32, b: i32) -> (r: i32)
    ensures
        r == wrap_i32(a * b),
{
    a.wrapping_mul(b)
}

/// Negation, wrapped: `i32::MIN` stays `i32::MIN`.
pub fn wrapping_neg(a: i32) -> (r: i32)
    ensures
        r == wrap_i32(-a),
{
    wrapping_sub(0, a)
}

/// Bitwise complement, which is `-a - 1` in two's complement.
pub fn complement(a: i32) -> (r: i32)
    ensures
        r == -a - 1,
{
    let r = !a;
    assert(r == -a - 1) by (bit_vector)
        requires
            r == !a,
    ;
    r
}

/// The truncated remainder; `i32::MIN % -1` is 0 rather than an overflow.
pub fn wrapping_rem(a: i32, b: i32) -> (r: i32)
    requires
        b != 0,
    ensures
        r == trunc_rem(a as int, b as int),
{
    if b == -1 {
        proof {
            lemma_mod_pos_bound(abs(a as int), 1);
        }
        return 0;
    }
    proof {
        let x = a as int;
        let d = b as int;
        lemma_mod_pos_bound(abs(x), abs(d));
        assert(x * -1 == abs(x) || x >= 0);
        assert(d * -1 == abs(d) || d >= 0);
        assert(abs(x) % abs(d) * -1 == -(abs(x) % abs(d)));
    }
    let res = a.checked_rem(b);
    match res {
        Some(r) => r,
        None => 0,
    }
}

/// The shift amount that native shifts use: the low five bits of `b`.
pub open spec fn shift_amount(b: i32) -> u32 {
    ((b as int) % 32) as u32
}

/// Computes [`shift_amount`].
pub fn shift_amount_of(b: i32) -> (r: u32)
    ensures
        r == shift_amount(b),
        r < 32,
{
    match b.checked_rem_euclid(32) {
        Some(k) => k as u32,
        None => 0,
    }
}

/// `a` shifted left by the low five bits of `b`, bits above 31 dropped.
pub fn wrapping_shl(a: i32, b: i32) -> (r: i32)
    ensures
        r == a << shift_amount(b),
{
    let k = shift_amount_of(b);
    a.wrapping_shl(k)
}

/// `a` shifted right arithmetically by the low five bits of `b`.
pub fn wrapping_shr(a: i32, b: i32) -> (r: i32)
    ensures
        r == a >> shift_amount(b),
{
    let k = shift_amount_of(b);
    a.wrapping_shr(k)
}

/// Wrapped products agree modulo `2^32` with exact ones.
proof fn lemma_wrap_mul_residue(x: int, y: int)
    ensures
        (wrap_i32(x) * y) % modulus() == (x * y) % modulus(),
{
    lemma_wrap_residue(x);
    lemma_mul_mod_noop_left(wrap_i32(x) as int, y, modulus());
    lemma_mul_mod_noop_left(x, y, modulus());
}

/// `base` raised to `exp` by squaring, wrapped to 32 bits.
pub fn wrapping_pow(base: i32, exp: u32) -> (r: i32)
    ensures
        r == wrapping_pow_spec(base as int, exp as nat),
{
    let mut acc: i32 = 1;
    let mut sq: i32 = base;
    let mut e: u32 = exp;
    proof {
        reveal(pow);
        lemma_mul_basics(pow(base as int, exp as nat));
    }
    while e > 0
        invariant
            (acc * pow(sq as int, e as nat)) % modulus() == pow(base as int, exp as nat) % modulus(),
        decreases e,
    {
        let ghost a0 = acc as int;
        let ghost s0 = sq as int;
        let ghost e0 = e as nat;
        let ghost k = (e / 2) as nat;
        proof {
            lemma_pow_multiplies(s0, 2, k);
            lemma_square_is_pow2(s0);
            lemma_pow1(s0);
            lemma_pow_adds(s0, 2 * k, 1);
            reveal(pow);
        }
        if e % 2 == 1 {
            acc = wrapping_mul(acc, sq);
        }
        sq = wrapping_mul(sq, sq);
        e = e / 2;
        proof {
            let pk = pow(s0 * s0, k);
            // the exponent halves and the base squares
            assert(pow(s0, e0) == (if e0 % 2 == 1 { s0 * pk } else { pk }));
            lemma_pow_mod_noop(sq as int, k, modulus());
            lemma_pow_mod_noop(s0 * s0, k, modulus());
            lemma_wrap_residue(s0 * s0);
            assert(pow(sq as int, k) % modulus() == pk % modulus());
            let m = if e0 % 2 == 1 { a0 * s0 } else { a0 };
            lemma_wrap_residue(a0 * s0);
            assert((acc as int) % modulus() == m % modulus());
            lemma_mul_mod_noop(acc as int, pow(sq as int, k), modulus());
            lemma_mul_mod_noop(m, pk, modulus());
            lemma_mul_is_associative(a0, s0, pk);
        }
    }
    proof {
        reveal(pow);
        lemma_wrap_same_residue(acc as int, pow(base as int, exp as nat));
        lemma_wrap_residue(acc as int);
    }
    acc
}
} // verus!
