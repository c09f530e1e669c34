use vstd::prelude::*;
use vstd::arithmetic::div_mod::{
    lemma_div_is_ordered, lemma_div_nonincreasing, lemma_div_pos_is_pos,
    lemma_fundamental_div_mod, lemma_mod_division_less_than_divisor,
};

use crate::DT_LIMIT;
use crate::MILLI;

verus! {

/// Integer division rounding toward zero, the way the executable code
/// divides: both operands are made nonnegative before the (Euclidean)
/// division and the sign is restored afterwards.
pub open spec fn sdiv(n: int, d: int) -> int {
    if n >= 0 {
        n / d
    } else {
        -((-n) / d)
    }
}

/// A quantity `c` multiplied by the time step `dt` (in thousandths of a
/// step), rounded toward zero to a whole fixed-point unit.
pub open spec fn spec_scaled(c: int, dt: int) -> int {
    sdiv(c * dt, MILLI as int)
}

/// Rounding toward zero never grows a magnitude: `|sdiv(n, d)| * d <= |n|`,
/// and the quotient never exceeds `|n|` itself.
pub proof fn lemma_sdiv_bounds(n: int, d: int)
    requires
        0 < d,
    ensures
        0 <= n ==> 0 <= sdiv(n, d) <= n && d * sdiv(n, d) <= n,
        n < 0 ==> n <= sdiv(n, d) <= 0 && n <= d * sdiv(n, d),
{
    if 0 <= n {
        lemma_div_pos_is_pos(n, d);
        lemma_div_nonincreasing(n, d);
        lemma_fundamental_div_mod(n, d);
        lemma_mod_division_less_than_divisor(n, d);
    } else {
        lemma_div_pos_is_pos(-n, d);
        lemma_div_nonincreasing(-n, d);
        lemma_fundamental_div_mod(-n, d);
        lemma_mod_division_less_than_divisor(-n, d);
        let q = (-n) / d;
        assert(d * (-q) == -(d * q)) by (nonlinear_arith);
    }
}

/// A time step of at most one second never grows a magnitude:
/// `|spec_scaled(c, dt)| <= |c|`.
pub proof fn lemma_scaled_bounds(c: int, dt: int)
    requires
        0 <= dt <= DT_LIMIT,
    ensures
        0 <= c ==> 0 <= spec_scaled(c, dt) <= c,
        c < 0 ==> c <= spec_scaled(c, dt) <= 0,
{
    lemma_sdiv_bounds(c * dt, MILLI as int);
    if 0 <= c {
        assert(0 <= c * dt <= c * (MILLI as int)) by (nonlinear_arith)
            requires
                0 <= c,
                0 <= dt <= MILLI,
        ;
        lemma_div_is_ordered(c * dt, c * (MILLI as int), MILLI as int);
        assert(c * (MILLI as int) / (MILLI as int) == c) by (nonlinear_arith)
            requires
                MILLI == 1000,
        ;
    } else {
        assert(c * (MILLI as int) <= c * dt <= 0) by (nonlinear_arith)
            requires
                c < 0,
                0 <= dt <= MILLI,
        ;
        assert(-(c * dt) <= -(c * (MILLI as int)));
        lemma_div_is_ordered(-(c * dt), -(c * (MILLI as int)), MILLI as int);
        assert(-(c * (MILLI as int)) / (MILLI as int) == -c) by (nonlinear_arith)
            requires
                MILLI == 1000,
        ;
    }
}

/// Division rounding toward zero, for numerators of either sign and a
/// positive divisor.
pub fn sdiv_exec(n: i64, d: i64) -> (r: i64)
    requires
        0 < d,
        -0x2000_0000_0000_0000 <= n <= 0x2000_0000_0000_0000,
    ensures
        r == sdiv(n as int, d as int),
{
    proof {
        lemma_sdiv_bounds(n as int, d as int);
    }
    if n >= 0 {
        ((n as u64) / (d as u64)) as i64
    } else {
        proof {
            lemma_div_pos_is_pos(-(n as int), d as int);
            lemma_div_nonincreasing(-(n as int), d as int);
        }
        -((((-n) as u64) / (d as u64)) as i64)
    }
}

/// The product of `c` and the time step `dt`, in whole fixed-point units,
/// rounded toward zero.
pub fn scaled(c: i64, dt: i64) -> (r: i64)
    requires
        0 <= dt <= DT_LIMIT,
        -1_000_000_000 <= c <= 1_000_000_000,
    ensures
        r == spec_scaled(c as int, dt as int),
        0 <= c ==> 0 <= r <= c,
        c < 0 ==> c <= r <= 0,
{
    proof {
        lemma_scaled_bounds(c as int, dt as int);
    }
    sdiv_exec(c * dt, MILLI)
}

/// Whether `r` is the integer square root of `n`: the greatest integer
/// whose square does not exceed `n`.
pub open spec fn is_isqrt(n: int, r: int) -> bool {
    0 <= r && r * r <= n && n < (r + 1) * (r + 1)
}

/// The integer square root of a nonnegative `n`.
pub open spec fn spec_isqrt(n: int) -> int {
    choose|r: int| is_isqrt(n, r)
}

/// No two integers are the square root of the same `n`.
pub proof fn lemma_isqrt_unique(n: int, r: int)
    requires
        is_isqrt(n, r),
    ensures
        spec_isqrt(n) == r,
{
    assert(exists|q: int| is_isqrt(n, q));
    let q = spec_isqrt(n);
    assert(is_isqrt(n, q));
    assert(q == r) by (nonlinear_arith)
        requires
            0 <= r,
            r * r <= n,
            n < (r + 1) * (r + 1),
            0 <= q,
            q * q <= n,
            n < (q + 1) * (q + 1),
    ;
}

/// Every nonnegative integer has an integer square root.
pub proof fn lemma_isqrt_exists(n: int)
    requires
        0 <= n,
    ensures
        is_isqrt(n, spec_isqrt(n)),
    decreases n,
{
    if n == 0 {
        assert(is_isqrt(0, 0));
        lemma_isqrt_unique(0, 0);
    } else {
        lemma_isqrt_exists(n - 1);
        let r = spec_isqrt(n - 1);
        if (r + 1) * (r + 1) == n {
            assert(is_isqrt(n, r + 1)) by (nonlinear_arith)
                requires
                    0 <= r,
                    r * r <= n - 1,
                    (r + 1) * (r + 1) == n,
            ;
            lemma_isqrt_unique(n, r + 1);
        } else {
            assert(is_isqrt(n, r));
            lemma_isqrt_unique(n, r);
        }
    }
}

/// The integer square root, by binary search on the root.
pub fn isqrt(n: u64) -> (r: u64)
    ensures
        is_isqrt(n as int, r as int),
        r == spec_isqrt(n as int),
        r < 0x1_0000_0000,
{
    let mut lo: u64 = 0;
    let mut hi: u64 = 0x1_0000_0000;
    while lo + 1 < hi
        invariant
            lo < hi <= 0x1_0000_0000,
            lo * lo <= n,
            (n as int) < (hi as int) * (hi as int),
        decreases hi - lo,
    {
        let mid = lo + (hi - lo) / 2;
        assert(lo < mid < hi);
        assert(mid * mid <= 0xffff_fffe_0000_0001) by (nonlinear_arith)
            requires
                0 <= mid < 0x1_0000_0000,
        ;
        if mid * mid <= n {
            lo = mid;
        } else {
            hi = mid;
        }
    }
    proof {
        lemma_isqrt_unique(n as int, lo as int);
    }
    lo
}

/// A square below a square of a nonnegative bound pins the base within
/// that bound.
pub proof fn lemma_sq_within(x: int, b: int)
    requires
        0 <= b,
        x * x <= b * b,
    ensures
        -b <= x <= b,
{
    assert(-b <= x <= b) by (nonlinear_arith)
        requires
            0 <= b,
            x * x <= b * b,
    ;
}

} // verus!
