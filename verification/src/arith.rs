//! Correctly rounded arithmetic on binary64 bit patterns.
//!
//! Each operation returns the value nearest to the exact result, ties to
//! even, as IEEE 754 asks of its default rounding.  Every invalid operation
//! returns the one quiet NaN of `NAN_BITS`.

use vstd::prelude::*;
use vstd::arithmetic::power2::{pow2, lemma_pow2_pos, lemma_pow2_unfold, lemma_pow2_adds, lemma_pow2_strictly_increases, lemma2_to64, lemma2_to64_rest};
use crate::double::{Double, INFINITY_BITS, NAN_BITS, SIGN_BIT};
use crate::rounding::{HIDDEN_BIT, significand, binade, grid, nearest, nearest_scaled, pos_part, brackets, round_ratio, lemma_grid_step, lemma_grid_monotonic, lemma_floor_index_unique, lemma_nearest_scales, lemma_nearest_zero};

verus! {

/// The pattern with the given sign and magnitude.
pub open spec fn signed(negative: bool, magnitude: u64) -> Double {
    Double { bits: if negative { (SIGN_BIT + magnitude) as u64 } else { magnitude } }
}

/// The magnitude of a sum or difference of two finite magnitudes.
spec fn combine(big: u64, small: u64, subtract: bool) -> nat {
    if subtract {
        (grid(big) - grid(small)) as nat
    } else {
        grid(big) + grid(small)
    }
}

impl Double {
    /// The value of a finite pattern in units of 2^-1074.
    pub open spec fn units(self) -> int {
        if self.is_negative_spec() {
            -(grid(self.magnitude()) as int)
        } else {
            grid(self.magnitude()) as int
        }
    }

    /// IEEE 754 addition.  NaN where an operand is NaN or infinities of
    /// opposite signs meet; an infinity where one operand is infinite;
    /// otherwise the exact sum of the two values, rounded.  An exact zero is
    /// positive unless both operands are negative.
    pub open spec fn plus_spec(self, rhs: Double) -> Double {
        if self.is_nan_spec() || rhs.is_nan_spec() {
            Double { bits: NAN_BITS }
        } else if self.is_infinite_spec() {
            if rhs.is_infinite_spec() && self.is_negative_spec() != rhs.is_negative_spec() {
                Double { bits: NAN_BITS }
            } else {
                self
            }
        } else if rhs.is_infinite_spec() {
            rhs
        } else {
            let sum = self.units() + rhs.units();
            if sum == 0 {
                signed(self.is_negative_spec() && rhs.is_negative_spec(), 0)
            } else if sum > 0 {
                signed(false, nearest(sum as nat, 1))
            } else {
                signed(true, nearest((-sum) as nat, 1))
            }
        }
    }

    /// IEEE 754 subtraction: addition of the negated right-hand side.
    pub open spec fn minus_spec(self, rhs: Double) -> Double {
        self.plus_spec(signed(!rhs.is_negative_spec(), rhs.magnitude()))
    }

    /// IEEE 754 multiplication.  NaN where an operand is NaN or an infinity
    /// meets a zero; otherwise the exact product, rounded, with the sign of
    /// the operands' signs combined.
    pub open spec fn times_spec(self, rhs: Double) -> Double {
        let negative = self.is_negative_spec() != rhs.is_negative_spec();
        if self.is_nan_spec() || rhs.is_nan_spec() {
            Double { bits: NAN_BITS }
        } else if self.is_infinite_spec() || rhs.is_infinite_spec() {
            if self.is_zero_spec() || rhs.is_zero_spec() {
                Double { bits: NAN_BITS }
            } else {
                signed(negative, INFINITY_BITS)
            }
        } else {
            signed(negative, nearest(grid(self.magnitude()) * grid(rhs.magnitude()), pow2(1074)))
        }
    }

    /// IEEE 754 division.  NaN where an operand is NaN, where both are
    /// infinite and where both are zero; an infinity where a value that is
    /// not zero is divided by zero; otherwise the exact quotient, rounded,
    /// with the sign of the operands' signs combined.
    pub open spec fn over_spec(self, rhs: Double) -> Double {
        let negative = self.is_negative_spec() != rhs.is_negative_spec();
        if self.is_nan_spec() || rhs.is_nan_spec() {
            Double { bits: NAN_BITS }
        } else if self.is_infinite_spec() {
            if rhs.is_infinite_spec() {
                Double { bits: NAN_BITS }
            } else {
                signed(negative, INFINITY_BITS)
            }
        } else if rhs.is_infinite_spec() {
            signed(negative, 0)
        } else if rhs.is_zero_spec() {
            if self.is_zero_spec() {
                Double { bits: NAN_BITS }
            } else {
                signed(negative, INFINITY_BITS)
            }
        } else {
            signed(negative, nearest(grid(self.magnitude()) * pow2(1074), grid(rhs.magnitude())))
        }
    }

    /// The binary64 value nearest to a count.
    pub open spec fn from_count_spec(count: u64) -> Double {
        signed(false, nearest(count as nat * pow2(1074), 1))
    }
}

fn with_sign(negative: bool, magnitude: u64) -> (d: Double)
    requires
        magnitude < SIGN_BIT,
    ensures
        d == signed(negative, magnitude),
        d.magnitude() == magnitude,
        d.is_negative_spec() == negative,
{
    if negative {
        Double { bits: SIGN_BIT + magnitude }
    } else {
        Double { bits: magnitude }
    }
}

/// Significand and binade of a magnitude pattern.
fn split(m: u64) -> (parts: (u64, u32))
    requires
        m <= INFINITY_BITS,
    ensures
        parts.0 == significand(m),
        parts.1 == binade(m),
        parts.0 < 2 * HIDDEN_BIT,
        parts.1 <= 2046,
        m > 0 ==> parts.0 > 0,
{
    if m < HIDDEN_BIT {
        (m, 0)
    } else {
        (HIDDEN_BIT + m % HIDDEN_BIT, (m / HIDDEN_BIT - 1) as u32)
    }
}

fn power_of_two(k: u32) -> (r: u128)
    requires
        k <= 63,
    ensures
        r == pow2(k as nat),
        r <= 0x8000_0000_0000_0000,
{
    let mut r: u128 = 1;
    let mut i: u32 = 0;
    proof {
        lemma2_to64();
    }
    while i < k
        invariant
            i <= k <= 63,
            r == pow2(i as nat),
        decreases k - i,
    {
        proof {
            lemma2_to64_rest();
            lemma_pow2_unfold((i + 1) as nat);
            if i + 1 < 63 {
                lemma_pow2_strictly_increases((i + 1) as nat, 63);
            }
        }
        r = r * 2;
        i = i + 1;
    }
    proof {
        lemma2_to64_rest();
        if k < 63 {
            lemma_pow2_strictly_increases(k as nat, 63);
        }
    }
    r
}

/// A ratio written with any two powers of two rounds as its scaled form does.
proof fn lemma_nearest_presented(a: nat, b: nat, x: nat, y: nat)
    requires
        b > 0,
    ensures
        nearest(a * pow2(x), b * pow2(y)) == nearest_scaled(a, b, x - y),
{
    let t = x - y;
    lemma_pow2_pos(x);
    lemma_pow2_pos(y);
    lemma2_to64();
    if t >= 0 {
        let up = pow2(t as nat);
        let c = pow2(y);
        lemma_pow2_adds(t as nat, y);
        lemma_pow2_pos(t as nat);
        assert(pos_part(t) == t as nat && pos_part(-t) == 0);
        assert(a * pow2(x) == (a * up) * c) by (nonlinear_arith)
            requires
                pow2(x) == up * c,
        ;
        assert(b * pow2(y) == (b * 1) * c) by (nonlinear_arith)
            requires
                pow2(y) == c,
        ;
        assert(b * 1 > 0);
        lemma_nearest_scales(a * up, b * 1, c);
    } else {
        let down = pow2((-t) as nat);
        let c = pow2(x);
        lemma_pow2_adds((-t) as nat, x);
        lemma_pow2_pos((-t) as nat);
        assert(pos_part(t) == 0 && pos_part(-t) == (-t) as nat);
        assert(a * pow2(x) == (a * 1) * c) by (nonlinear_arith)
            requires
                pow2(x) == c,
        ;
        assert(b * pow2(y) == (b * down) * c) by (nonlinear_arith)
            requires
                pow2(y) == down * c,
        ;
        assert(b * down > 0) by (nonlinear_arith)
            requires
                b > 0,
                down > 0,
        ;
        lemma_nearest_scales(a * 1, b * down, c);
    }
}

/// A value on the grid rounds to itself, and so does one that differs from it
/// by less than an eighth of its binade's unit.
proof fn lemma_nearest_close(big: u64, offset: nat, subtract: bool)
    requires
        big < INFINITY_BITS,
        8 * offset < pow2(binade(big)),
        subtract ==> offset > 0 && binade(big) >= 1,
    ensures
        !subtract ==> nearest(grid(big) + offset, 1) == big,
        subtract ==> grid(big) > offset && nearest((grid(big) - offset) as nat, 1) == big,
{
    let g = grid(big);
    let u = pow2(binade(big));
    lemma_grid_step(big);
    lemma_grid_monotonic((big + 1) as u64, INFINITY_BITS);
    let top = grid(INFINITY_BITS);
    assert(top * 1 == top);
    if !subtract {
        let n = g + offset;
        assert(g * 1 == g);
        assert((g + u) * 1 == g + u);
        assert((g + (g + u)) * 1 == g + (g + u));
        assert(brackets(big, n, 1));
        lemma_floor_index_unique(big, n, 1);
    } else {
        assert(significand(big) >= HIDDEN_BIT);
        assert(g >= u) by (nonlinear_arith)
            requires
                g == significand(big) * u,
                significand(big) >= 1,
                u > 0,
        ;
        let lo = (big - 1) as u64;
        let n = (g - offset) as nat;
        lemma_grid_step(lo);
        let v = pow2(binade(lo));
        lemma_pow2_unfold(binade(big));
        assert(binade(lo) == binade(big) || binade(lo) == binade(big) - 1);
        assert(2 * v >= u);
        let g0 = grid(lo);
        assert(g0 * 1 == g0);
        assert(g * 1 == g);
        assert((g0 + g) * 1 == g0 + g);
        assert(brackets(lo, n, 1));
        lemma_floor_index_unique(lo, n, 1);
    }
}

/// The magnitude pattern of the rounded sum or difference of two finite
/// magnitudes, the larger one first.
fn combine_magnitudes(big: u64, small: u64, subtract: bool) -> (r: u64)
    requires
        small <= big < INFINITY_BITS,
    ensures
        grid(small) <= grid(big),
        r == nearest(combine(big, small, subtract), 1),
        r <= INFINITY_BITS,
{
    let (sb, eb) = split(big);
    let (ss, es) = split(small);
    let gap: u32 = eb - es;
    proof {
        lemma_grid_monotonic(small, big);
        lemma_pow2_pos(es as nat);
        lemma_pow2_pos(eb as nat);
    }
    if ss == 0 || gap > 55 {
        proof {
            let u = pow2(eb as nat);
            let offset = grid(small);
            if ss == 0 {
                assert(offset == 0) by (nonlinear_arith)
                    requires
                        offset == ss * pow2(es as nat),
                        ss == 0,
                ;
                lemma_nearest_close(big, 0, false);
            } else {
                lemma2_to64();
                lemma2_to64_rest();
                lemma_pow2_adds(56, es as nat);
                if eb > es + 56 {
                    lemma_pow2_strictly_increases((es + 56) as nat, eb as nat);
                }
                let w = pow2(es as nat);
                assert(8 * offset < u && offset > 0) by (nonlinear_arith)
                    requires
                        offset == ss * w,
                        0 < ss < 0x20_0000_0000_0000,
                        u >= 0x100_0000_0000_0000 * w,
                        w > 0,
                ;
                lemma_nearest_close(big, offset, subtract);
            }
        }
        return big;
    }
    let lift: u128 = power_of_two(gap);
    proof {
        lemma_pow2_adds(gap as nat, es as nat);
        lemma2_to64_rest();
        if gap < 55 {
            lemma_pow2_strictly_increases(gap as nat, 55);
        }
        assert(sb * lift < 0x1000_0000_0000_0000_0000_0000_0000) by (nonlinear_arith)
            requires
                sb < 0x20_0000_0000_0000,
                lift <= 0x80_0000_0000_0000,
        ;
        let w = pow2(es as nat);
        assert(grid(big) == (sb * lift) * w) by (nonlinear_arith)
            requires
                grid(big) == sb * pow2(eb as nat),
                pow2(eb as nat) == lift * w,
        ;
        assert(grid(small) == ss * w);
        assert(sb * lift >= ss) by (nonlinear_arith)
            requires
                (sb * lift) * w >= ss * w,
                w > 0,
        ;
        assert(((sb * lift) + ss) * w == (sb * lift) * w + ss * w) by (nonlinear_arith);
        assert(((sb * lift) - ss) * w == (sb * lift) * w - ss * w) by (nonlinear_arith);
    }
    let lifted: u128 = (sb as u128) * lift;
    let total: u128 = if subtract {
        lifted - ss as u128
    } else {
        lifted + ss as u128
    };
    if total == 0 {
        proof {
            assert(combine(big, small, subtract) == 0);
            lemma_nearest_zero(0, 1);
        }
        return 0;
    }
    proof {
        lemma2_to64();
        assert(combine(big, small, subtract) == total as nat * pow2(es as nat));
        lemma_nearest_presented(total as nat, 1, es as nat, 0);
        assert(1 * pow2(0) == 1);
    }
    round_ratio(total, 1, es as i32)
}

impl Double {
    /// IEEE 754 addition.
    pub fn plus(self, rhs: Double) -> (r: Double)
        ensures
            r == self.plus_spec(rhs),
    {
        if self.is_nan() || rhs.is_nan() {
            return Double::nan();
        }
        if self.is_infinite() {
            if rhs.is_infinite() && self.is_negative() != rhs.is_negative() {
                return Double::nan();
            }
            return self;
        }
        if rhs.is_infinite() {
            return rhs;
        }
        let a: u64 = self.abs_bits();
        let b: u64 = rhs.abs_bits();
        let subtract: bool = self.is_negative() != rhs.is_negative();
        let (big, small, negative) = if a >= b {
            (a, b, self.is_negative())
        } else {
            (b, a, rhs.is_negative())
        };
        let magnitude: u64 = combine_magnitudes(big, small, subtract);
        proof {
            lemma_nearest_zero(0, 1);
            if a != b {
                lemma_grid_monotonic(small, big);
            }
        }
        if magnitude == 0 && subtract && a == b {
            with_sign(false, 0)
        } else {
            with_sign(negative, magnitude)
        }
    }

    /// IEEE 754 subtraction.
    pub fn minus(self, rhs: Double) -> (r: Double)
        ensures
            r == self.minus_spec(rhs),
    {
        self.plus(with_sign(!rhs.is_negative(), rhs.abs_bits()))
    }

    /// IEEE 754 multiplication.
    pub fn times(self, rhs: Double) -> (r: Double)
        ensures
            r == self.times_spec(rhs),
    {
        if self.is_nan() || rhs.is_nan() {
            return Double::nan();
        }
        let negative: bool = self.is_negative() != rhs.is_negative();
        if self.is_infinite() || rhs.is_infinite() {
            if self.is_zero() || rhs.is_zero() {
                return Double::nan();
            }
            return with_sign(negative, INFINITY_BITS);
        }
        let (sa, ea) = split(self.abs_bits());
        let (sb, eb) = split(rhs.abs_bits());
        let ghost ga = grid(self.magnitude());
        let ghost gb = grid(rhs.magnitude());
        proof {
            lemma_pow2_pos(1074);
        }
        if sa == 0 || sb == 0 {
            proof {
                assert(ga * gb == 0) by (nonlinear_arith)
                    requires
                        ga == sa * pow2(ea as nat),
                        gb == sb * pow2(eb as nat),
                        sa == 0 || sb == 0,
                ;
                lemma_nearest_zero(0, pow2(1074));
            }
            return with_sign(negative, 0);
        }
        proof {
            assert(0 < sa * sb < 0x400_0000_0000_0000_0000_0000_0000) by (nonlinear_arith)
                requires
                    0 < sa < 0x20_0000_0000_0000,
                    0 < sb < 0x20_0000_0000_0000,
            ;
        }
        let product: u128 = (sa as u128) * (sb as u128);
        proof {
            lemma_pow2_adds(ea as nat, eb as nat);
            assert(ga * gb == (sa * sb) * pow2((ea + eb) as nat)) by (nonlinear_arith)
                requires
                    ga == sa * pow2(ea as nat),
                    gb == sb * pow2(eb as nat),
                    pow2((ea + eb) as nat) == pow2(ea as nat) * pow2(eb as nat),
            ;
            assert(1 * pow2(1074) == pow2(1074));
            lemma_nearest_presented(product as nat, 1, (ea + eb) as nat, 1074);
        }
        let magnitude: u64 = round_ratio(product, 1, (ea + eb) as i32 - 1074);
        with_sign(negative, magnitude)
    }

    /// IEEE 754 division.
    pub fn over(self, rhs: Double) -> (r: Double)
        ensures
            r == self.over_spec(rhs),
    {
        if self.is_nan() || rhs.is_nan() {
            return Double::nan();
        }
        let negative: bool = self.is_negative() != rhs.is_negative();
        if self.is_infinite() {
            if rhs.is_infinite() {
                return Double::nan();
            }
            return with_sign(negative, INFINITY_BITS);
        }
        if rhs.is_infinite() {
            return with_sign(negative, 0);
        }
        if rhs.is_zero() {
            if self.is_zero() {
                return Double::nan();
            }
            return with_sign(negative, INFINITY_BITS);
        }
        let (sa, ea) = split(self.abs_bits());
        let (sb, eb) = split(rhs.abs_bits());
        let ghost ga = grid(self.magnitude());
        let ghost gb = grid(rhs.magnitude());
        proof {
            lemma_pow2_pos(eb as nat);
            assert(gb > 0) by (nonlinear_arith)
                requires
                    gb == sb * pow2(eb as nat),
                    sb > 0,
                    pow2(eb as nat) > 0,
            ;
        }
        if sa == 0 {
            proof {
                assert(ga * pow2(1074) == 0) by (nonlinear_arith)
                    requires
                        ga == sa * pow2(ea as nat),
                        sa == 0,
                ;
                lemma_nearest_zero(0, gb);
            }
            return with_sign(negative, 0);
        }
        proof {
            lemma_pow2_adds(ea as nat, 1074);
            assert(ga * pow2(1074) == sa * pow2((ea + 1074) as nat)) by (nonlinear_arith)
                requires
                    ga == sa * pow2(ea as nat),
                    pow2((ea + 1074) as nat) == pow2(ea as nat) * pow2(1074),
            ;
            lemma_nearest_presented(sa as nat, sb as nat, (ea + 1074) as nat, eb as nat);
        }
        let magnitude: u64 = round_ratio(sa as u128, sb as u128, ea as i32 + 1074 - eb as i32);
        with_sign(negative, magnitude)
    }

    /// The binary64 value nearest to a count; exact up to 2^53.
    pub fn from_count(count: u64) -> (r: Double)
        ensures
            r == Double::from_count_spec(count),
    {
        if count == 0 {
            proof {
                assert(0 * pow2(1074) == 0) by (nonlinear_arith);
                lemma_nearest_zero(0, 1);
            }
            return with_sign(false, 0);
        }
        proof {
            lemma2_to64();
            assert(1 * pow2(0) == 1);
            lemma_nearest_presented(count as nat, 1, 1074, 0);
        }
        let magnitude: u64 = round_ratio(count as u128, 1, 1074);
        with_sign(false, magnitude)
    }
}

/// Among finite values, the order of the patterns is the order of the values
/// they stand for.
pub proof fn lemma_order_is_numeric(a: Double, b: Double)
    requires
        a.is_finite_spec(),
        b.is_finite_spec(),
    ensures
        a.lt_spec(b) <==> a.units() < b.units(),
        a.le_spec(b) <==> a.units() <= b.units(),
{
    let x = a.magnitude();
    let y = b.magnitude();
    lemma_grid_monotonic(0, x);
    lemma_grid_monotonic(0, y);
    assert(grid(0) == 0) by {
        assert(significand(0) == 0);
        assert(0 * pow2(binade(0)) == 0) by (nonlinear_arith);
    }
    if x <= y {
        lemma_grid_monotonic(x, y);
    } else {
        lemma_grid_monotonic(y, x);
    }
}

/// A finite value plus a zero is that value: nothing is rounded away.
pub proof fn lemma_plus_zero(a: Double, zero: Double)
    requires
        a.is_finite_spec(),
        !a.is_zero_spec(),
        zero.is_zero_spec(),
    ensures
        a.plus_spec(zero) == a,
        zero.plus_spec(a) == a,
{
    let m = a.magnitude();
    lemma_grid_monotonic(0, m);
    assert(grid(0) == 0) by {
        assert(significand(0) == 0);
        assert(0 * pow2(binade(0)) == 0) by (nonlinear_arith);
    }
    lemma_pow2_pos(binade(m));
    lemma_nearest_close(m, 0, false);
}

} // verus!
