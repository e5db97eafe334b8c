//! Rounding to the nearest binary64 value, ties to even.
//!
//! Every finite binary64 value is a whole multiple of 2^-1074.  This module
//! measures magnitudes in that unit, so that a magnitude is a natural number
//! and an exact result is a ratio of two of them.

use vstd::prelude::*;
use vstd::arithmetic::power2::{pow2, lemma_pow2_pos, lemma_pow2_unfold, lemma2_to64, lemma2_to64_rest};
use vstd::arithmetic::mul::lemma_mul_inequality;
use vstd::arithmetic::div_mod::{lemma_fundamental_div_mod, lemma_fundamental_div_mod_converse, lemma_mod_pos_bound};
use vstd::arithmetic::power2::lemma_pow2_strictly_increases;
use crate::double::INFINITY_BITS;

verus! {

/// 2^52: the implicit leading bit of a normal significand.
pub const HIDDEN_BIT: u64 = 0x10_0000_0000_0000;

/// The integer significand that a magnitude pattern encodes.
pub open spec fn significand(m: u64) -> nat {
    if m < HIDDEN_BIT {
        m as nat
    } else {
        (HIDDEN_BIT + m % HIDDEN_BIT) as nat
    }
}

/// The power of two, in units of 2^-1074, that scales the significand.
pub open spec fn binade(m: u64) -> nat {
    if m < HIDDEN_BIT {
        0
    } else {
        (m / HIDDEN_BIT - 1) as nat
    }
}

/// The value of a magnitude pattern in units of 2^-1074.  The pattern of
/// infinity stands for 2^1024, the first value past the finite range.
pub open spec fn grid(m: u64) -> nat {
    significand(m) * pow2(binade(m))
}

/// `lo` is the last finite pattern whose value does not exceed `n / d`.
pub open spec fn brackets(lo: u64, n: nat, d: nat) -> bool {
    lo < INFINITY_BITS && grid(lo) * d <= n < grid((lo + 1) as u64) * d
}

/// The pattern that brackets `n / d`.  There is one, and only one, for
/// every ratio below the value that infinity stands for.
pub open spec fn floor_index(n: nat, d: nat) -> u64 {
    choose|lo: u64| brackets(lo, n, d)
}

/// Of `lo` and its successor, the one nearer to `n / d`; halfway between
/// them, the even one.
pub open spec fn pick(lo: u64, n: nat, d: nat) -> u64 {
    let twice_mid = (grid(lo) + grid((lo + 1) as u64)) * d;
    if 2 * n < twice_mid {
        lo
    } else if 2 * n > twice_mid {
        (lo + 1) as u64
    } else if lo % 2 == 0 {
        lo
    } else {
        (lo + 1) as u64
    }
}

/// The magnitude pattern nearest to `n / d` units of 2^-1074, ties to even;
/// infinity from 2^1024 - 2^970 on.
pub open spec fn nearest(n: nat, d: nat) -> u64 {
    if n >= grid(INFINITY_BITS) * d {
        INFINITY_BITS
    } else {
        pick(floor_index(n, d), n, d)
    }
}

/// `t` if it is positive, zero otherwise.
pub open spec fn pos_part(t: int) -> nat {
    if t > 0 {
        t as nat
    } else {
        0
    }
}

/// From one pattern to the next the value grows by one unit of the binade.
pub proof fn lemma_grid_step(m: u64)
    requires
        m < INFINITY_BITS,
    ensures
        grid((m + 1) as u64) == grid(m) + pow2(binade(m)),
        pow2(binade(m)) > 0,
{
    let p = pow2(binade(m));
    lemma_pow2_pos(binade(m));
    lemma2_to64();
    let s = significand(m);
    let m1 = (m + 1) as u64;
    let s1 = significand(m1);
    if m < HIDDEN_BIT - 1 {
        assert(s * 1 + 1 == s1 * 1);
    } else if m == HIDDEN_BIT - 1 {
        assert(s * 1 + 1 == s1 * 1);
    } else if m % HIDDEN_BIT < HIDDEN_BIT - 1 {
        assert(m1 / HIDDEN_BIT == m / HIDDEN_BIT);
        assert(s1 == s + 1);
        assert((s + 1) * p == s * p + p) by (nonlinear_arith);
    } else {
        assert(m1 / HIDDEN_BIT == m / HIDDEN_BIT + 1);
        assert(m1 % HIDDEN_BIT == 0);
        assert(binade(m1) == binade(m) + 1);
        lemma_pow2_unfold(binade(m1));
        let h = HIDDEN_BIT as int;
        assert(s == 2 * h - 1);
        assert(s1 == h);
        assert(h * (2 * p) == (2 * h - 1) * p + p) by (nonlinear_arith);
    }
}

/// Patterns are ordered as their values are.
pub proof fn lemma_grid_monotonic(a: u64, b: u64)
    requires
        a <= b <= INFINITY_BITS,
    ensures
        grid(a) <= grid(b),
        a < b ==> grid(a) < grid(b),
    decreases b - a,
{
    if a < b {
        let prev = (b - 1) as u64;
        lemma_grid_step(prev);
        lemma_grid_monotonic(a, prev);
    }
}

/// The pattern of infinity stands for 2^52 times 2^2046 units: 2^1024.
pub proof fn lemma_grid_infinity()
    ensures
        grid(INFINITY_BITS) == HIDDEN_BIT * pow2(2046),
        binade(INFINITY_BITS) == 2046,
{
}

/// At most one pattern brackets a given ratio.
pub proof fn lemma_floor_index_unique(lo: u64, n: nat, d: nat)
    requires
        d > 0,
        brackets(lo, n, d),
    ensures
        floor_index(n, d) == lo,
{
    let other = floor_index(n, d);
    assert(brackets(other, n, d));
    if other < lo {
        lemma_grid_monotonic((other + 1) as u64, lo);
        lemma_mul_inequality(grid((other + 1) as u64) as int, grid(lo) as int, d as int);
    } else if lo < other {
        lemma_grid_monotonic((lo + 1) as u64, other);
        lemma_mul_inequality(grid((lo + 1) as u64) as int, grid(other) as int, d as int);
    }
}

/// Below the value that `hi` stands for, some finite pattern brackets the ratio.
pub proof fn lemma_floor_index_exists(n: nat, d: nat, hi: u64)
    requires
        d > 0,
        hi <= INFINITY_BITS,
        n < grid(hi) * d,
    ensures
        brackets(floor_index(n, d), n, d),
    decreases hi,
{
    if hi == 0 {
        assert(grid(0) == 0) by {
            assert(significand(0) == 0);
            assert(0 * pow2(binade(0)) == 0) by (nonlinear_arith);
        }
        assert(0 * d == 0) by (nonlinear_arith);
    } else {
        let prev = (hi - 1) as u64;
        if grid(prev) * d <= n {
            assert(brackets(prev, n, d));
        } else {
            lemma_floor_index_exists(n, d, prev);
        }
    }
}

/// A ratio below half a unit rounds to zero.
pub proof fn lemma_nearest_zero(n: nat, d: nat)
    requires
        d > 0,
        2 * n < d,
    ensures
        nearest(n, d) == 0,
{
    lemma2_to64();
    lemma_grid_step(0);
    assert(grid(0) == 0) by {
        assert(significand(0) == 0);
        assert(0 * pow2(binade(0)) == 0) by (nonlinear_arith);
    }
    assert(grid(1) == 1);
    assert(0 * d == 0) by (nonlinear_arith);
    assert(1 * d == d) by (nonlinear_arith);
    assert(brackets(0, n, d));
    lemma_floor_index_unique(0, n, d);
    lemma_grid_monotonic(1, INFINITY_BITS);
    lemma_mul_inequality(1, grid(INFINITY_BITS) as int, d as int);
}

/// Rounding sees the ratio, not the pair that presents it.
pub proof fn lemma_nearest_scales(n: nat, d: nat, c: nat)
    requires
        d > 0,
        c > 0,
    ensures
        nearest(n * c, d * c) == nearest(n, d),
{
    let top = grid(INFINITY_BITS);
    assert(top * (d * c) == (top * d) * c) by (nonlinear_arith);
    assert(d * c > 0) by (nonlinear_arith)
        requires
            d > 0,
            c > 0,
    ;
    if n >= top * d {
        assert(n * c >= (top * d) * c) by (nonlinear_arith)
            requires
                n >= top * d,
                c > 0,
        ;
    } else {
        assert(n * c < (top * d) * c) by (nonlinear_arith)
            requires
                n < top * d,
                c > 0,
        ;
        lemma_floor_index_exists(n, d, INFINITY_BITS);
        let lo = floor_index(n, d);
        let g0 = grid(lo);
        let g1 = grid((lo + 1) as u64);
        assert(g0 * (d * c) <= n * c < g1 * (d * c)) by (nonlinear_arith)
            requires
                g0 * d <= n < g1 * d,
                c > 0,
        ;
        assert(brackets(lo, n * c, d * c));
        lemma_floor_index_unique(lo, n * c, d * c);
        let m = (g0 + g1) * d;
        assert((g0 + g1) * (d * c) == m * c) by (nonlinear_arith)
            requires
                m == (g0 + g1) * d,
        ;
        assert(2 * (n * c) == (2 * n) * c) by (nonlinear_arith);
        assert((2 * n < m) == ((2 * n) * c < m * c)) by (nonlinear_arith)
            requires
                c > 0,
        ;
        assert((2 * n > m) == ((2 * n) * c > m * c)) by (nonlinear_arith)
            requires
                c > 0,
        ;
    }
}

/// How far the value of pattern `m` lies from `n / d`, in `d`-ths of a unit.
pub open spec fn distance(m: u64, n: nat, d: nat) -> int {
    if n >= grid(m) * d {
        n - grid(m) * d
    } else {
        grid(m) * d - n
    }
}

/// No pattern lies nearer to the ratio than the one it rounds to, where the
/// pattern of infinity counts as 2^1024.
pub proof fn lemma_nearest_is_nearest(n: nat, d: nat, m: u64)
    requires
        d > 0,
        m <= INFINITY_BITS,
    ensures
        nearest(n, d) <= INFINITY_BITS,
        distance(nearest(n, d), n, d) <= distance(m, n, d),
{
    let top = grid(INFINITY_BITS);
    if n >= top * d {
        lemma_grid_monotonic(m, INFINITY_BITS);
        lemma_mul_inequality(grid(m) as int, top as int, d as int);
    } else {
        lemma_floor_index_exists(n, d, INFINITY_BITS);
        let lo = floor_index(n, d);
        let hi = (lo + 1) as u64;
        let below = grid(lo) * d;
        let above = grid(hi) * d;
        let g0 = grid(lo);
        let g1 = grid(hi);
        assert((g0 + g1) * d == below + above) by (nonlinear_arith)
            requires
                below == g0 * d,
                above == g1 * d,
        ;
        if m <= lo {
            lemma_grid_monotonic(m, lo);
            lemma_mul_inequality(grid(m) as int, grid(lo) as int, d as int);
        } else {
            lemma_grid_monotonic(hi, m);
            lemma_mul_inequality(grid(hi) as int, grid(m) as int, d as int);
        }
    }
}

/// Where `n * den == num * w`, the ratio `n / w` sits within its unit exactly
/// as the remainder of `num / den` sits within `den`.
proof fn lemma_ratio_position(n: int, den: int, num: int, w: int, q: int, rem: int)
    requires
        den > 0,
        w > 0,
        n * den == num * w,
        num == den * q + rem,
        0 <= rem < den,
    ensures
        q * w <= n < (q + 1) * w,
        (2 * n < (2 * q + 1) * w) == (2 * rem < den),
        (2 * n > (2 * q + 1) * w) == (2 * rem > den),
{
    let gap = n - q * w;
    assert(den * gap == rem * w) by (nonlinear_arith)
        requires
            n * den == num * w,
            num == den * q + rem,
            gap == n - q * w,
    ;
    assert(0 <= gap < w) by (nonlinear_arith)
        requires
            den * gap == rem * w,
            0 <= rem < den,
            w > 0,
            den > 0,
    ;
    assert((q + 1) * w == q * w + w) by (nonlinear_arith);
    assert((2 * q + 1) * w == 2 * (q * w) + w) by (nonlinear_arith);
    assert(den * (2 * gap - w) == (2 * rem - den) * w) by (nonlinear_arith)
        requires
            den * gap == rem * w,
    ;
    assert((2 * gap < w) == (2 * rem < den)) by (nonlinear_arith)
        requires
            den * (2 * gap - w) == (2 * rem - den) * w,
            w > 0,
            den > 0,
    ;
    assert((2 * gap > w) == (2 * rem > den)) by (nonlinear_arith)
        requires
            den * (2 * gap - w) == (2 * rem - den) * w,
            w > 0,
            den > 0,
    ;
}

/// The pattern `e * 2^52 + q` encodes significand `q` in binade `e`.
proof fn lemma_pack(e: nat, q: nat)
    requires
        e < 2047,
        q < 2 * HIDDEN_BIT,
        e == 0 || q >= HIDDEN_BIT,
    ensures
        e * HIDDEN_BIT + q < 0x8000_0000_0000_0000,
        significand((e * HIDDEN_BIT + q) as u64) == q,
        binade((e * HIDDEN_BIT + q) as u64) == e,
        (e * HIDDEN_BIT + q < INFINITY_BITS) == (e < 2046 || q < HIDDEN_BIT),
        (e * HIDDEN_BIT + q) % 2 == q % 2,
{
    let h = HIDDEN_BIT as int;
    let m = e * h + q;
    if q >= HIDDEN_BIT {
        let f = q - h;
        assert(m == (e + 1) * h + f);
        assert(m / h == e + 1 && m % h == f) by {
            lemma_fundamental_div_mod_converse(m, h, (e + 1) as int, f);
        }
    }
}

/// What `round_ratio` returns once the ratio is normalized: `num / den` is
/// the significand, below 2^53, and at least 2^52 unless the binade is zero.
spec fn rounded(num: nat, den: nat, e: nat) -> u64 {
    let q = num / den;
    let rem = num % den;
    let lo = (e * HIDDEN_BIT + q) as u64;
    if e >= 2046 && q >= HIDDEN_BIT {
        INFINITY_BITS
    } else if 2 * rem > den || (2 * rem == den && q % 2 == 1) {
        (lo + 1) as u64
    } else {
        lo
    }
}

/// A normalized ratio rounds to the pattern made of its quotient and binade,
/// or to the next one, as the remainder decides.
proof fn lemma_rounded(n: nat, d: nat, num: nat, den: nat, e: nat)
    requires
        d > 0,
        den > 0,
        n * den == num * (d * pow2(e)),
        num < den * (2 * HIDDEN_BIT),
        e == 0 || num >= den * HIDDEN_BIT,
    ensures
        nearest(n, d) == rounded(num, den, e),
        num / den < 2 * HIDDEN_BIT,
        e == 0 || num / den >= HIDDEN_BIT,
        e < 2046 ==> e * HIDDEN_BIT + num / den < INFINITY_BITS,
{
    let h = HIDDEN_BIT as int;
    let q = num / den;
    let rem = num % den;
    lemma_fundamental_div_mod(num as int, den as int);
    lemma_mod_pos_bound(num as int, den as int);
    assert(q < 2 * h) by (nonlinear_arith)
        requires
            num == den * q + rem,
            0 <= rem,
            num < den * (2 * h),
            den > 0,
    ;
    assert(num >= den * h ==> q >= h) by (nonlinear_arith)
        requires
            num == den * q + rem,
            rem < den,
            den > 0,
    ;
    let p = pow2(e);
    lemma_pow2_pos(e);
    let w = (d * p) as int;
    assert(w > 0) by (nonlinear_arith)
        requires
            w == d * p,
            d > 0,
            p > 0,
    ;
    lemma_ratio_position(n as int, den as int, num as int, w, q as int, rem as int);
    if e >= 2046 && q >= h {
        // at or beyond the value that infinity stands for
        lemma_grid_infinity();
        if e > 2046 {
            lemma_pow2_strictly_increases(2046, e);
        }
        let top = pow2(2046);
        assert(grid(INFINITY_BITS) * d <= q * w) by (nonlinear_arith)
            requires
                grid(INFINITY_BITS) == h * top,
                top <= p,
                q >= h,
                w == d * p,
                d > 0,
                h > 0,
        ;
    } else {
        if q < h {
            assert(e == 0);
        }
        lemma_pack(e, q);
        let lo = (e * h + q) as u64;
        assert(lo < INFINITY_BITS);
        lemma_grid_step(lo);
        assert(grid(lo) == q * p);
        assert(grid((lo + 1) as u64) == q * p + p);
        assert(grid(lo) * d == q * w) by (nonlinear_arith)
            requires
                grid(lo) == q * p,
                w == d * p,
        ;
        assert(grid((lo + 1) as u64) * d == (q + 1) * w) by (nonlinear_arith)
            requires
                grid((lo + 1) as u64) == q * p + p,
                w == d * p,
        ;
        assert((grid(lo) + grid((lo + 1) as u64)) * d == (2 * q + 1) * w) by (nonlinear_arith)
            requires
                grid(lo) == q * p,
                grid((lo + 1) as u64) == q * p + p,
                w == d * p,
        ;
        assert(brackets(lo, n, d));
        lemma_floor_index_unique(lo, n, d);
        lemma_grid_monotonic((lo + 1) as u64, INFINITY_BITS);
        lemma_mul_inequality(grid((lo + 1) as u64) as int, grid(INFINITY_BITS) as int, d as int);
    }
}

/// `num / den`, scaled by two to the `e`, presents the ratio `n / d`.
spec fn balanced(n: nat, d: nat, num: nat, den: nat, e: int) -> bool {
    n * den * pow2(pos_part(-e)) == num * d * pow2(pos_part(e))
}

proof fn lemma_balanced_start(a: nat, b: nat, t: int)
    ensures
        balanced(a * pow2(pos_part(t)), b * pow2(pos_part(-t)), a, b, t),
{
    let up = pow2(pos_part(t));
    let down = pow2(pos_part(-t));
    assert((a * up) * b * down == a * (b * down) * up) by (nonlinear_arith);
}

proof fn lemma_balanced_double_den(n: nat, d: nat, num: nat, den: nat, e: int)
    requires
        balanced(n, d, num, den, e),
    ensures
        balanced(n, d, num, 2 * den, e + 1),
{
    let up = pow2(pos_part(e));
    let down = pow2(pos_part(-e));
    let up1 = pow2(pos_part(e + 1));
    let down1 = pow2(pos_part(-(e + 1)));
    if e < 0 {
        lemma_pow2_unfold(pos_part(-e));
        assert(n * (2 * den) * down1 == num * d * up1) by (nonlinear_arith)
            requires
                n * den * down == num * d * up,
                down == 2 * down1,
                up1 == up,
        ;
    } else {
        lemma_pow2_unfold(pos_part(e + 1));
        assert(n * (2 * den) * down1 == num * d * up1) by (nonlinear_arith)
            requires
                n * den * down == num * d * up,
                up1 == 2 * up,
                down1 == down,
        ;
    }
}

proof fn lemma_balanced_double_num(n: nat, d: nat, num: nat, den: nat, e: int)
    requires
        balanced(n, d, num, den, e),
        e > 0,
    ensures
        balanced(n, d, 2 * num, den, e - 1),
{
    let up = pow2(pos_part(e));
    let down = pow2(pos_part(-e));
    let up1 = pow2(pos_part(e - 1));
    let down1 = pow2(pos_part(-(e - 1)));
    lemma_pow2_unfold(pos_part(e));
    assert(n * den * down1 == (2 * num) * d * up1) by (nonlinear_arith)
        requires
            n * den * down == num * d * up,
            up == 2 * up1,
            down1 == down,
    ;
}

/// A ratio with a negative scale whose quotient is a quarter at most is below
/// half a unit.
proof fn lemma_balanced_tiny(n: nat, d: nat, num: nat, den: nat, e: int)
    requires
        balanced(n, d, num, den, e),
        e <= 0,
        d > 0,
        den > 0,
        4 * num <= den,
    ensures
        2 * n < d,
{
    lemma2_to64();
    let down = pow2(pos_part(-e));
    lemma_pow2_pos(pos_part(-e));
    assert(4 * n <= d) by (nonlinear_arith)
        requires
            n * den * down == num * d * 1,
            4 * num <= den,
            down >= 1,
            den > 0,
    ;
}

/// The magnitude pattern nearest to `a / b` scaled by two to the `t`.
pub open spec fn nearest_scaled(a: nat, b: nat, t: int) -> u64 {
    nearest(a * pow2(pos_part(t)), b * pow2(pos_part(-t)))
}

/// Computes `nearest_scaled`: first the ratio is brought to a significand of
/// 53 bits, or to the lowest binade, then the remainder decides the last bit.
pub(crate) fn round_ratio(a: u128, b: u128, t: i32) -> (r: u64)
    requires
        0 < a < 0x1_0000_0000_0000_0000_0000_0000_0000,
        0 < b < 0x1_0000_0000_0000_0000,
        -8192 < t < 8192,
    ensures
        r == nearest_scaled(a as nat, b as nat, t as int),
        r <= INFINITY_BITS,
{
    let ghost n: nat = a as nat * pow2(pos_part(t as int));
    let ghost d: nat = b as nat * pow2(pos_part(-(t as int)));
    let mut num: u128 = a;
    let mut den: u128 = b;
    let mut e: i32 = t;
    proof {
        lemma_balanced_start(a as nat, b as nat, t as int);
        lemma_pow2_pos(pos_part(-(t as int)));
        assert(d > 0) by (nonlinear_arith)
            requires
                d == b as nat * pow2(pos_part(-(t as int))),
                b > 0,
                pow2(pos_part(-(t as int))) > 0,
        ;
    }
    // A negative scale goes into the denominator, unless the ratio is
    // already below a quarter unit.
    while e < 0
        invariant
            d > 0,
            num == a,
            a < 0x1_0000_0000_0000_0000_0000_0000_0000,
            b < 0x1_0000_0000_0000_0000,
            0 < den,
            t <= e < 8192,
            e <= 0 || den == b,
            balanced(n, d, num as nat, den as nat, e as int),
            nearest_scaled(a as nat, b as nat, t as int) == nearest(n, d),
        decreases -e,
    {
        if den / 4 >= num {
            proof {
                lemma_balanced_tiny(n, d, num as nat, den as nat, e as int);
                lemma_nearest_zero(n, d);
            }
            return 0;
        }
        proof {
            lemma_balanced_double_den(n, d, num as nat, den as nat, e as int);
        }
        den = den * 2;
        e = e + 1;
    }
    // The significand must stay below 2^53.
    let ghost steps: nat = 0;
    let ghost den_before: nat = den as nat;
    let e_before: i32 = e;
    proof {
        lemma2_to64();
        assert(den_before * 1 == den_before);
    }
    while num / 0x20_0000_0000_0000 >= den
        invariant
            d > 0,
            num == a,
            a < 0x1_0000_0000_0000_0000_0000_0000_0000,
            0 < den,
            den == den_before * pow2(steps),
            den_before > 0,
            e == e_before + steps,
            0 <= e_before < 8192,
            steps <= 64,
            e == 0 || den < 0x1_0000_0000_0000_0000,
            balanced(n, d, num as nat, den as nat, e as int),
        decreases num - den,
    {
        proof {
            lemma_balanced_double_den(n, d, num as nat, den as nat, e as int);
            lemma_pow2_unfold(steps + 1);
            lemma2_to64();
            lemma2_to64_rest();
            if steps >= 64 {
                if steps > 64 {
                    lemma_pow2_strictly_increases(64, steps);
                }
                assert(den_before * pow2(steps) >= pow2(64)) by (nonlinear_arith)
                    requires
                        den_before >= 1,
                        pow2(steps) >= pow2(64),
                ;
            }
            assert(den_before * (2 * pow2(steps)) == 2 * (den_before * pow2(steps)))
                by (nonlinear_arith);
            steps = steps + 1;
        }
        den = den * 2;
        e = e + 1;
    }
    // A positive scale goes into the numerator while the significand is short of 2^52.
    while e > 0 && num / 0x10_0000_0000_0000 < den
        invariant
            d > 0,
            0 < den,
            0 <= e < 8400,
            e == 0 || den < 0x1_0000_0000_0000_0000,
            num / 0x20_0000_0000_0000 < den,
            balanced(n, d, num as nat, den as nat, e as int),
        decreases e,
    {
        proof {
            lemma_balanced_double_num(n, d, num as nat, den as nat, e as int);
        }
        num = num * 2;
        e = e - 1;
    }
    proof {
        lemma2_to64();
        let up = pow2(pos_part(e as int));
        assert(num < den * 0x20_0000_0000_0000);
        assert(e == 0 || num >= den * 0x10_0000_0000_0000);
        assert(n * den == num * (d * up)) by (nonlinear_arith)
            requires
                n * den * 1 == num * d * up,
        ;
        lemma_rounded(n, d, num as nat, den as nat, e as nat);
    }
    let q: u128 = num / den;
    let rem: u128 = num % den;
    if e >= 2046 && q >= 0x10_0000_0000_0000 {
        return INFINITY_BITS;
    }
    let lo: u64 = (e as u64) * HIDDEN_BIT + (q as u64);
    if rem > den - rem || (rem == den - rem && q % 2 == 1) {
        lo + 1
    } else {
        lo
    }
}

} // verus!
