//! Fixed-point real numbers: a signed 64-bit count of 2^-32 units.
//!
//! Every operation is computed exactly on 128-bit intermediates, truncated
//! toward zero where a quotient is taken, and saturated to the symmetric
//! range `[-RAW_MAX, RAW_MAX]`, so no operation can overflow or panic. A
//! type invariant keeps every value in that range, constructors included.
use vstd::arithmetic::div_mod::{
    lemma_div_is_ordered, lemma_div_multiples_vanish, lemma_div_pos_is_pos,
    lemma_fundamental_div_mod, lemma_mod_bound,
};
use vstd::prelude::*;

verus! {

/// Number of fractional bits.
pub const FRACTION_BITS: u32 = 32;

/// Raw value of `1.0`.
pub const ONE_RAW: i64 = 4294967296;

/// Largest raw magnitude; results saturate at `-RAW_MAX` and `RAW_MAX`.
pub const RAW_MAX: i64 = 9223372036854775807;

/// Saturates an exact result into the representable range.
pub open spec fn clip(v: int) -> int {
    if v > RAW_MAX {
        RAW_MAX as int
    } else if v < -RAW_MAX {
        -RAW_MAX
    } else {
        v
    }
}

pub open spec fn abs_int(v: int) -> int {
    if v < 0 {
        -v
    } else {
        v
    }
}

/// Quotient truncated toward zero.
pub open spec fn tdiv(a: int, b: int) -> int {
    if (a < 0) == (b < 0) {
        abs_int(a) / abs_int(b)
    } else {
        -(abs_int(a) / abs_int(b))
    }
}

/// Largest `r` with `r * r <= n`.
pub open spec fn isqrt(n: nat) -> nat
    decreases n,
{
    if n == 0 {
        0
    } else {
        let r = isqrt((n - 1) as nat);
        if (r + 1) * (r + 1) <= n {
            r + 1
        } else {
            r
        }
    }
}

pub proof fn lemma_isqrt_bounds(n: nat)
    ensures
        isqrt(n) * isqrt(n) <= n,
        n < (isqrt(n) + 1) * (isqrt(n) + 1),
    decreases n,
{
    if n > 0 {
        lemma_isqrt_bounds((n - 1) as nat);
        let r = isqrt((n - 1) as nat);
        if (r + 1) * (r + 1) <= n {
            assert(isqrt(n) == r + 1);
            assert((r + 2) * (r + 2) == (r + 1) * (r + 1) + 2 * r + 3) by (nonlinear_arith);
            assert(n < (r + 2) * (r + 2));
            assert(isqrt(n) * isqrt(n) == (r + 1) * (r + 1));
            assert((isqrt(n) + 1) * (isqrt(n) + 1) == (r + 2) * (r + 2));
        } else {
            assert(isqrt(n) == r);
            assert(isqrt(n) * isqrt(n) == r * r);
            assert((isqrt(n) + 1) * (isqrt(n) + 1) == (r + 1) * (r + 1));
        }
    } else {
        assert(n == 0);
        assert(isqrt(n) == 0);
        assert((isqrt(n) + 1) * (isqrt(n) + 1) == 1) by (nonlinear_arith)
            requires
                isqrt(n) == 0,
        ;
    }
}

pub proof fn lemma_isqrt_unique(n: nat, r: nat)
    requires
        r * r <= n,
        n < (r + 1) * (r + 1),
    ensures
        isqrt(n) == r,
{
    lemma_isqrt_bounds(n);
    let s = isqrt(n);
    if s < r {
        assert((s + 1) * (s + 1) <= r * r) by (nonlinear_arith)
            requires
                s + 1 <= r,
        ;
    } else if r < s {
        assert((r + 1) * (r + 1) <= s * s) by (nonlinear_arith)
            requires
                r + 1 <= s,
        ;
    }
}

/// Truncated division by a positive number keeps order.
pub proof fn lemma_tdiv_monotone(x: int, y: int, d: int)
    requires
        x <= y,
        d > 0,
    ensures
        tdiv(x, d) <= tdiv(y, d),
{
    if x >= 0 {
        lemma_div_is_ordered(x, y, d);
    } else if y < 0 {
        lemma_div_is_ordered(-y, -x, d);
    } else {
        lemma_div_pos_is_pos(-x, d);
        lemma_div_pos_is_pos(y, d);
    }
}

/// Truncated division by a positive number is off by less than one divisor.
pub proof fn lemma_tdiv_error(y: int, d: int)
    requires
        d > 0,
    ensures
        -d < y - d * tdiv(y, d) < d,
{
    if y >= 0 {
        lemma_fundamental_div_mod(y, d);
        lemma_mod_bound(y, d);
        assert(tdiv(y, d) == y / d);
        assert(y - d * tdiv(y, d) == y % d);
    } else {
        lemma_fundamental_div_mod(-y, d);
        lemma_mod_bound(-y, d);
        assert(tdiv(y, d) == -((-y) / d));
        assert(d * tdiv(y, d) == -(d * ((-y) / d))) by (nonlinear_arith)
            requires
                tdiv(y, d) == -((-y) / d),
        ;
        assert(y - d * tdiv(y, d) == -((-y) % d));
    }
}

/// Multiplying by zero gives zero.
pub proof fn lemma_mul_zero(x: int)
    ensures
        mul_spec(0, x) == 0,
        mul_spec(x, 0) == 0,
{
    assert(0 * x == 0 && x * 0 == 0) by (nonlinear_arith);
}

/// Multiplying by one changes nothing in range.
pub proof fn lemma_mul_one(x: int)
    requires
        -RAW_MAX <= x <= RAW_MAX,
    ensures
        mul_spec(ONE_RAW as int, x) == x,
        mul_spec(x, ONE_RAW as int) == x,
{
    let one = ONE_RAW as int;
    assert(one * x == x * one) by (nonlinear_arith);
    assert(abs_int(one * x) == one * abs_int(x)) by (nonlinear_arith)
        requires
            one > 0,
    ;
    lemma_div_multiples_vanish(abs_int(x), one);
}

/// Division by one changes nothing in range.
pub proof fn lemma_div_one(x: int)
    requires
        -RAW_MAX <= x <= RAW_MAX,
    ensures
        div_spec(x, ONE_RAW as int) == x,
{
    let one = ONE_RAW as int;
    assert(abs_int(x * one) == one * abs_int(x)) by (nonlinear_arith)
        requires
            one > 0,
    ;
    lemma_div_multiples_vanish(abs_int(x), one);
}

/// Products of numbers of `[0, 1]` stay in `[0, 1]` and keep order.
pub proof fn lemma_mul_unit_monotone(a: int, b: int, c: int, d: int)
    requires
        0 <= a <= c <= ONE_RAW,
        0 <= b <= d <= ONE_RAW,
    ensures
        0 <= mul_spec(a, b) <= mul_spec(c, d) <= ONE_RAW,
{
    let one = ONE_RAW as int;
    assert(0 <= a * b <= c * d <= one * one) by (nonlinear_arith)
        requires
            0 <= a <= c <= one,
            0 <= b <= d <= one,
    ;
    lemma_div_is_ordered(a * b, c * d, one);
    lemma_div_is_ordered(c * d, one * one, one);
    lemma_div_pos_is_pos(a * b, one);
    lemma_div_multiples_vanish(one, one);
}

/// Powers of numbers of `[0, 1]` stay in `[0, 1]` and keep order.
pub proof fn lemma_powi_unit_monotone(x: int, y: int, n: nat)
    requires
        0 <= x <= y <= ONE_RAW,
    ensures
        0 <= powi_spec(x, n) <= powi_spec(y, n) <= ONE_RAW,
    decreases n,
{
    if n > 0 {
        lemma_powi_unit_monotone(x, y, (n - 1) as nat);
        lemma_mul_unit_monotone(powi_spec(x, (n - 1) as nat), x, powi_spec(y, (n - 1) as nat), y);
    }
}

/// Division by a positive number keeps order.
pub proof fn lemma_div_spec_monotone(x: int, y: int, d: int)
    requires
        x <= y,
        d > 0,
    ensures
        div_spec(x, d) <= div_spec(y, d),
{
    assert(x * ONE_RAW <= y * ONE_RAW) by (nonlinear_arith)
        requires
            x <= y,
    ;
    lemma_tdiv_monotone(x * ONE_RAW, y * ONE_RAW, d);
}

/// The square root keeps order.
pub proof fn lemma_isqrt_monotone(x: nat, y: nat)
    requires
        x <= y,
    ensures
        isqrt(x) <= isqrt(y),
{
    lemma_isqrt_bounds(x);
    lemma_isqrt_bounds(y);
    let a = isqrt(x);
    let b = isqrt(y);
    if a > b {
        assert((b + 1) * (b + 1) <= a * a) by (nonlinear_arith)
            requires
                b + 1 <= a,
        ;
    }
}

/// Exact integer square root of a 128-bit value below `2^96`.
fn isqrt_u128(n: u128) -> (r: u64)
    requires
        n < 0x1000000000000000000000000,
    ensures
        r as nat == isqrt(n as nat),
{
    let mut lo: u128 = 0;
    let mut hi: u128 = 0x1000000000000;
    assert(hi * hi == 0x1000000000000000000000000);
    while hi - lo > 1
        invariant
            lo < hi <= 0x1000000000000,
            lo * lo <= n,
            n < hi * hi,
        decreases hi - lo,
    {
        let mid: u128 = lo + (hi - lo) / 2;
        assert(mid * mid <= 0x1000000000000 * 0x1000000000000) by (nonlinear_arith)
            requires
                mid <= 0x1000000000000,
        ;
        if mid * mid <= n {
            lo = mid;
        } else {
            hi = mid;
        }
    }
    proof {
        lemma_isqrt_unique(n as nat, lo as nat);
    }
    lo as u64
}

/// A fixed-point real number.
#[derive(Clone, Copy, Debug, PartialEq, Eq, Structural)]
pub struct Real {
    pub(crate) raw: i64,
}

impl Real {
    /// Every value lies within `[-RAW_MAX, RAW_MAX]`.
    #[verifier::type_invariant]
    pub(crate) open spec fn in_range(&self) -> bool {
        self.raw >= -RAW_MAX
    }
}

impl View for Real {
    type V = int;

    open(crate) spec fn view(&self) -> int {
        self.raw as int
    }
}

/// The quotient `a / b`, truncated toward zero and saturated.
fn quotient(a: i128, b: i128) -> (r: Real)
    requires
        b != 0,
        -0x1000000000000000000000000 <= a <= 0x1000000000000000000000000,
        -0x1000000000000000000000000 <= b <= 0x1000000000000000000000000,
    ensures
        r@ == clip(tdiv(a as int, b as int)),
{
    let na: u128 = if a < 0 { (-a) as u128 } else { a as u128 };
    let nb: u128 = if b < 0 { (-b) as u128 } else { b as u128 };
    let q: u128 = na / nb;
    assert(q <= na) by (nonlinear_arith)
        requires
            q == na / nb,
            nb >= 1,
    ;
    if (a < 0) == (b < 0) {
        saturate(q as i128)
    } else {
        saturate(-(q as i128))
    }
}

/// Saturates a 128-bit intermediate to a `Real`.
fn saturate(v: i128) -> (r: Real)
    ensures
        r@ == clip(v as int),
{
    if v > RAW_MAX as i128 {
        Real { raw: RAW_MAX }
    } else if v < -(RAW_MAX as i128) {
        Real { raw: -RAW_MAX }
    } else {
        Real { raw: v as i64 }
    }
}

pub open spec fn add_spec(a: int, b: int) -> int {
    clip(a + b)
}

pub open spec fn sub_spec(a: int, b: int) -> int {
    clip(a - b)
}

pub open spec fn neg_spec(a: int) -> int {
    clip(-a)
}

pub open spec fn mul_spec(a: int, b: int) -> int {
    clip(tdiv(a * b, ONE_RAW as int))
}

pub open spec fn div_spec(a: int, b: int) -> int {
    clip(tdiv(a * ONE_RAW, b))
}

pub open spec fn sqrt_spec(a: int) -> int {
    if a <= 0 {
        0
    } else {
        isqrt((a * ONE_RAW) as nat) as int
    }
}

pub open spec fn min_spec(a: int, b: int) -> int {
    if a <= b {
        a
    } else {
        b
    }
}

pub open spec fn max_spec(a: int, b: int) -> int {
    if a >= b {
        a
    } else {
        b
    }
}

/// `x` multiplied by itself `n` times, one product at a time.
pub open spec fn powi_spec(x: int, n: nat) -> int
    decreases n,
{
    if n == 0 {
        ONE_RAW as int
    } else {
        mul_spec(powi_spec(x, (n - 1) as nat), x)
    }
}

impl Real {
    /// The value of `raw` units; the one raw value below `-RAW_MAX`
    /// saturates to it.
    pub fn from_raw(raw: i64) -> (r: Real)
        ensures
            r@ == clip(raw as int),
    {
        saturate(raw as i128)
    }

    /// The value in raw units.
    pub fn raw(&self) -> (r: i64)
        ensures
            r == self@,
            -RAW_MAX <= r,
    {
        proof {
            use_type_invariant(self);
        }
        self.raw
    }

    pub fn zero() -> (r: Real)
        ensures
            r@ == 0,
    {
        Real { raw: 0 }
    }

    pub fn one() -> (r: Real)
        ensures
            r@ == ONE_RAW,
    {
        Real { raw: ONE_RAW }
    }

    /// The whole number `n`; the least `i32` saturates to `-RAW_MAX`.
    pub fn from_int(n: i32) -> (r: Real)
        ensures
            r@ == clip(n * ONE_RAW),
            n > -0x80000000 ==> r@ == n * ONE_RAW,
    {
        assert(-0x80000000 * 0x100000000 <= n * 0x100000000 <= 0x7fffffff * 0x100000000)
            by (nonlinear_arith)
            requires
                -0x80000000 <= n <= 0x7fffffff,
        ;
        saturate(n as i128 * ONE_RAW as i128)
    }

    /// The quotient `num / den`, truncated toward zero to the nearest unit.
    pub fn ratio(num: i32, den: i32) -> (r: Real)
        requires
            den != 0,
        ensures
            r@ == div_spec(num * ONE_RAW, den * ONE_RAW),
    {
        assert(-0x80000000 * 0x100000000 <= num * 0x100000000 <= 0x80000000 * 0x100000000)
            by (nonlinear_arith)
            requires
                -0x80000000 <= num <= 0x7fffffff,
        ;
        assert(-0x80000000 * 0x100000000 <= den * 0x100000000 <= 0x80000000 * 0x100000000)
            by (nonlinear_arith)
            requires
                -0x80000000 <= den <= 0x7fffffff,
        ;
        let a: i128 = num as i128 * ONE_RAW as i128;
        let b: i128 = den as i128 * ONE_RAW as i128;
        assert(-0x8000000000000000 * 0x100000000 <= a * 0x100000000 <= 0x8000000000000000
            * 0x100000000) by (nonlinear_arith)
            requires
                -0x8000000000000000 <= a <= 0x8000000000000000,
        ;
        quotient(a * ONE_RAW as i128, b)
    }

    pub fn add(self, other: Real) -> (r: Real)
        ensures
            r@ == add_spec(self@, other@),
    {
        saturate(self.raw as i128 + other.raw as i128)
    }

    pub fn sub(self, other: Real) -> (r: Real)
        ensures
            r@ == sub_spec(self@, other@),
    {
        saturate(self.raw as i128 - other.raw as i128)
    }

    pub fn neg(self) -> (r: Real)
        ensures
            r@ == neg_spec(self@),
    {
        saturate(-(self.raw as i128))
    }

    pub fn mul(self, other: Real) -> (r: Real)
        ensures
            r@ == mul_spec(self@, other@),
    {
        let a = self.raw as i128;
        let b = other.raw as i128;
        assert(-0x8000000000000000 * 0x8000000000000000 <= a * b <= 0x8000000000000000
            * 0x8000000000000000) by (nonlinear_arith)
            requires
                -0x8000000000000000 <= a <= 0x7fffffffffffffff,
                -0x8000000000000000 <= b <= 0x7fffffffffffffff,
        ;
        let p: i128 = a * b;
        saturate(p / (ONE_RAW as i128))
    }

    pub fn div(self, other: Real) -> (r: Real)
        requires
            other@ != 0,
        ensures
            r@ == div_spec(self@, other@),
    {
        assert(-0x8000000000000000 * 0x100000000 <= self.raw * 0x100000000 <= 0x8000000000000000
            * 0x100000000) by (nonlinear_arith)
            requires
                -0x8000000000000000 <= self.raw <= 0x7fffffffffffffff,
        ;
        quotient(self.raw as i128 * ONE_RAW as i128, other.raw as i128)
    }

    pub fn sqrt(self) -> (r: Real)
        ensures
            r@ == sqrt_spec(self@),
            r@ >= 0,
    {
        if self.raw <= 0 {
            Real { raw: 0 }
        } else {
            let n: u128 = self.raw as u128 * ONE_RAW as u128;
            let s = isqrt_u128(n);
            proof {
                lemma_isqrt_bounds(n as nat);
                assert(s * s <= n);
                assert(s < 0x8000000000000000) by (nonlinear_arith)
                    requires
                        s * s <= n,
                        n < 0x8000000000000000 * 0x100000000,
                ;
            }
            Real { raw: s as i64 }
        }
    }

    pub fn lt(self, other: Real) -> (r: bool)
        ensures
            r == (self@ < other@),
    {
        self.raw < other.raw
    }

    pub fn le(self, other: Real) -> (r: bool)
        ensures
            r == (self@ <= other@),
    {
        self.raw <= other.raw
    }

    pub fn min(self, other: Real) -> (r: Real)
        ensures
            r@ == min_spec(self@, other@),
    {
        if self.raw <= other.raw {
            self
        } else {
            other
        }
    }

    pub fn max(self, other: Real) -> (r: Real)
        ensures
            r@ == max_spec(self@, other@),
    {
        if self.raw >= other.raw {
            self
        } else {
            other
        }
    }

    pub fn abs(self) -> (r: Real)
        ensures
            r@ == clip(abs_int(self@)),
    {
        if self.raw < 0 {
            self.neg()
        } else {
            self
        }
    }

    /// `self` restricted to `[lo, hi]`.
    pub fn clamp(self, lo: Real, hi: Real) -> (r: Real)
        requires
            lo@ <= hi@,
        ensures
            r@ == max_spec(lo@, min_spec(self@, hi@)),
    {
        lo.max(self.min(hi))
    }

    /// `self` raised to the power `n`.
    pub fn powi(self, n: u32) -> (r: Real)
        ensures
            r@ == powi_spec(self@, n as nat),
    {
        let mut acc = Real::one();
        let mut i: u32 = 0;
        while i < n
            invariant
                i <= n,
                acc@ == powi_spec(self@, i as nat),
            decreases n - i,
        {
            acc = acc.mul(self);
            i = i + 1;
        }
        acc
    }
}

} // verus!
