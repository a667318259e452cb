//! Fixed-point scalar helpers: truncating division, absolute value and
//! integer square root, with exact contracts.

use vstd::prelude::*;
use vstd::arithmetic::div_mod::{lemma_fundamental_div_mod, lemma_fundamental_div_mod_converse, lemma_div_is_ordered, lemma_div_multiples_vanish, lemma_div_pos_is_pos};
use vstd::arithmetic::mul::{lemma_mul_inequality, lemma_mul_is_commutative};

verus! {

/// The fixed-point unit: the integer representation of the real number 1.
pub const FP: i64 = 65536;

/// Absolute value of a mathematical integer.
pub open spec fn iabs(a: int) -> int {
    if a >= 0 {
        a
    } else {
        -a
    }
}

/// Truncating (round-toward-zero) division, the semantics of Rust's `/` on
/// signed integers, as a mathematical function. Only used with `b > 0`.
pub open spec fn tdiv(a: int, b: int) -> int {
    if a >= 0 {
        a / b
    } else {
        -((-a) / b)
    }
}

/// Truncating division never grows the magnitude of the dividend.
pub proof fn lemma_tdiv_bound(a: int, b: int)
    requires
        1 <= b,
    ensures
        iabs(tdiv(a, b)) <= iabs(a),
        a >= 0 ==> 0 <= tdiv(a, b) <= a,
        a < 0 ==> -iabs(a) <= tdiv(a, b) <= 0,
{
    let m = iabs(a);
    lemma_fundamental_div_mod(m, b);
    assert(m == b * (m / b) + m % b);
    assert(0 <= m % b < b);
    let q = m / b;
    assert(q >= 0) by (nonlinear_arith)
        requires
            m >= 0,
            b >= 1,
            m == b * q + m % b,
            0 <= m % b < b,
    ;
    assert(q <= b * q) by (nonlinear_arith)
        requires
            q >= 0,
            b >= 1,
    ;
    assert(q <= m);
}

/// A bound on the dividend, as a multiple of the divisor, bounds the
/// quotient of a truncating division.
pub proof fn lemma_tdiv_cap(a: int, b: int, cap: int)
    requires
        1 <= b,
        0 <= cap,
        iabs(a) <= cap * b,
    ensures
        iabs(tdiv(a, b)) <= cap,
{
    let m = iabs(a);
    lemma_div_pos_is_pos(m, b);
    lemma_div_is_ordered(m, cap * b, b);
    lemma_mul_is_commutative(cap, b);
    lemma_div_multiples_vanish(cap, b);
    assert((b * cap) / b == cap);
    assert(m / b <= cap);
}

/// The remainder a truncating division drops is smaller than the divisor.
pub proof fn lemma_tdiv_rem(a: int, b: int)
    requires
        1 <= b,
    ensures
        iabs(a - b * tdiv(a, b)) <= b - 1,
{
    let m = iabs(a);
    lemma_fundamental_div_mod(m, b);
    let q = m / b;
    lemma_div_pos_is_pos(m, b);
    assert(b * (-q) == -(b * q)) by (nonlinear_arith);
}

/// Doubling the dividend at most doubles the truncating quotient, to within
/// one: the truncation error of one division step.
pub proof fn lemma_tdiv_double(a: int, b: int)
    requires
        1 <= b,
    ensures
        iabs(tdiv(2 * a, b) - 2 * tdiv(a, b)) <= 1,
{
    let m = iabs(a);
    lemma_fundamental_div_mod(m, b);
    let q = m / b;
    let r = m % b;
    lemma_div_pos_is_pos(m, b);
    assert(b * (2 * q) + 2 * r == 2 * m) by (nonlinear_arith)
        requires
            b * q + r == m,
    ;
    if 2 * r < b {
        lemma_fundamental_div_mod_converse(2 * m, b, 2 * q, 2 * r);
        assert((2 * m) / b == 2 * q);
    } else {
        assert(b * (2 * q + 1) + (2 * r - b) == 2 * m) by (nonlinear_arith)
            requires
                b * (2 * q) + 2 * r == 2 * m,
        ;
        lemma_fundamental_div_mod_converse(2 * m, b, 2 * q + 1, 2 * r - b);
        assert((2 * m) / b == 2 * q + 1);
    }
    assert(iabs(2 * a) == 2 * m);
}

/// The square-root bracket of `lemma_isqrt_props`, restated over `int`.
pub proof fn lemma_isqrt_bracket(n: nat)
    ensures
        (isqrt_s(n) as int) * (isqrt_s(n) as int) <= n as int,
        (n as int) < (isqrt_s(n) as int + 1) * (isqrt_s(n) as int + 1),
        isqrt_s(n) as int >= 0,
{
    lemma_isqrt_props(n);
    let s = isqrt_s(n);
    assert((s as int) * (s as int) == (s * s) as int) by (nonlinear_arith);
    assert((s as int + 1) * (s as int + 1) == ((s + 1) * (s + 1)) as int) by (nonlinear_arith);
}

/// Truncating division of an `i128` by a positive divisor.
pub fn div_t(a: i128, b: i128) -> (r: i128)
    requires
        1 <= b,
        -0x7fffffffffffffffffffffffffffffff <= a,
    ensures
        r == tdiv(a as int, b as int),
        iabs(r as int) <= iabs(a as int),
{
    proof {
        lemma_tdiv_bound(a as int, b as int);
    }
    a / b
}

/// The integer square root of `n`: the greatest `r` with `r * r <= n`.
/// Defined by counting up so that its characterization can be proved by
/// induction; see `lemma_isqrt_props`.
pub open spec fn isqrt_s(n: nat) -> nat
    decreases n,
{
    if n == 0 {
        0
    } else {
        let p = isqrt_s((n - 1) as nat);
        if (p + 1) * (p + 1) <= n {
            p + 1
        } else {
            p
        }
    }
}

/// `isqrt_s(n)` really is the integer square root of `n`.
pub proof fn lemma_isqrt_props(n: nat)
    ensures
        isqrt_s(n) * isqrt_s(n) <= n,
        n < (isqrt_s(n) + 1) * (isqrt_s(n) + 1),
    decreases n,
{
    if n == 0 {
        assert(isqrt_s(0) == 0);
        assert((isqrt_s(n) + 1) * (isqrt_s(n) + 1) == 1) by (nonlinear_arith)
            requires
                isqrt_s(n) == 0,
        ;
    } else {
        lemma_isqrt_props((n - 1) as nat);
        let p = isqrt_s((n - 1) as nat);
        assert(isqrt_s(n) == if (p + 1) * (p + 1) <= n {
            (p + 1) as nat
        } else {
            p
        });
        let s = isqrt_s(n);
        if (p + 1) * (p + 1) <= n {
            assert(n < (p + 2) * (p + 2)) by (nonlinear_arith)
                requires
                    n - 1 < (p + 1) * (p + 1),
                    p >= 0,
            ;
            assert(s == p + 1);
            assert(s * s <= n);
            assert(n < (s + 1) * (s + 1));
        } else {
            assert(s == p);
            assert(s * s <= n);
            assert(n < (s + 1) * (s + 1));
        }
    }
}

/// Any `r` in the square-root bracket of `n` equals `isqrt_s(n)`.
pub proof fn lemma_isqrt_unique(n: nat, r: nat)
    requires
        r * r <= n,
        n < (r + 1) * (r + 1),
    ensures
        r == isqrt_s(n),
{
    lemma_isqrt_props(n);
    let s = isqrt_s(n);
    if r < s {
        assert((r + 1) * (r + 1) <= s * s) by (nonlinear_arith)
            requires
                0 <= r,
                r + 1 <= s,
        ;
    }
    if s < r {
        assert((s + 1) * (s + 1) <= r * r) by (nonlinear_arith)
            requires
                0 <= s,
                s + 1 <= r,
        ;
    }
}

/// Integer square root of a `u128`, by binary search on the bracket
/// `lo * lo <= n < hi * hi`.
pub fn isqrt(n: u128) -> (r: u64)
    ensures
        r == isqrt_s(n as nat),
        r * r <= n,
{
    let mut lo: u128 = 0;
    let mut hi: u128 = 0x1_0000_0000_0000_0000;
    if n < hi {
        hi = n + 1;
    }
    proof {
        assert(n < hi * hi) by (nonlinear_arith)
            requires
                hi == 0x1_0000_0000_0000_0000 || hi == n + 1,
                n < 0x1_0000_0000_0000_0000_0000_0000_0000_0000,
        ;
    }
    while hi - lo > 1
        invariant
            lo < hi,
            hi <= 0x1_0000_0000_0000_0000,
            lo * lo <= n,
            n < hi * hi,
        decreases hi - lo,
    {
        let mid: u128 = lo + (hi - lo) / 2;
        proof {
            assert(mid * mid <= 0xffff_ffff_ffff_ffff * 0xffff_ffff_ffff_ffff) by (nonlinear_arith)
                requires
                    0 <= mid <= 0xffff_ffff_ffff_ffff,
            ;
        }
        if mid * mid <= n {
            lo = mid;
        } else {
            hi = mid;
        }
    }
    proof {
        lemma_isqrt_unique(n as nat, lo as nat);
        lemma_mul_inequality(lo as int, 0xffff_ffff_ffff_ffff, lo as int);
    }
    lo as u64
}

} // verus!
