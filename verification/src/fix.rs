//! Fixed-point scalars: an `i64` holds millionths of a unit, and every
//! operation saturates at `FIX_MAX` so that all arithmetic is total on the
//! representable range.

use vstd::prelude::*;

verus! {

/// One unit, in millionths.
pub const SCALE: i64 = 1_000_000;

/// Largest magnitude a scalar may take (one million units).
pub const FIX_MAX: i64 = 1_000_000_000_000;

pub open spec fn in_range(a: int) -> bool {
    -(FIX_MAX as int) <= a <= FIX_MAX as int
}

/// Saturate a mathematical integer into the representable range.
pub open spec fn sat(a: int) -> int {
    if a > FIX_MAX as int {
        FIX_MAX as int
    } else if a < -(FIX_MAX as int) {
        -(FIX_MAX as int)
    } else {
        a
    }
}

pub open spec fn iabs(a: int) -> int {
    if a < 0 {
        -a
    } else {
        a
    }
}

pub open spec fn fadd(a: int, b: int) -> int {
    sat(a + b)
}

pub open spec fn fsub(a: int, b: int) -> int {
    sat(a - b)
}

/// Product of two scalars, truncated toward zero, before saturation.
pub open spec fn raw_mul(a: int, b: int) -> int {
    if (a < 0) == (b < 0) {
        iabs(a * b) / (SCALE as int)
    } else {
        -(iabs(a * b) / (SCALE as int))
    }
}

pub open spec fn fmul(a: int, b: int) -> int {
    sat(raw_mul(a, b))
}

/// Quotient of two scalars, truncated toward zero, before saturation.
pub open spec fn raw_div(a: int, b: int) -> int {
    if (a < 0) == (b < 0) {
        (iabs(a) * SCALE) / iabs(b)
    } else {
        -((iabs(a) * SCALE) / iabs(b))
    }
}

pub open spec fn fdiv(a: int, b: int) -> int {
    sat(raw_div(a, b))
}

pub open spec fn is_sqrt(n: int, r: int) -> bool {
    0 <= r && r * r <= n && n < (r + 1) * (r + 1)
}

/// The integer square root, floor of the real one.
pub open spec fn sqrt_floor(n: int) -> int {
    choose|r: int| is_sqrt(n, r)
}

/// Square root of a scalar: floor(sqrt(a / SCALE)) in scalar units.
pub open spec fn fsqrt(a: int) -> int {
    sqrt_floor(a * SCALE)
}

/// Clamp a scalar into [0, 1] (in scalar units, [0, SCALE]).
pub open spec fn clamp01(a: int) -> int {
    if a < 0 {
        0
    } else if a > SCALE as int {
        SCALE as int
    } else {
        a
    }
}

pub proof fn lemma_sqrt_exists(n: int)
    requires
        0 <= n,
    ensures
        is_sqrt(n, sqrt_floor(n)),
    decreases n,
{
    if n == 0 {
        assert(is_sqrt(0, 0));
    } else {
        lemma_sqrt_exists(n - 1);
        let r = sqrt_floor(n - 1);
        if n < (r + 1) * (r + 1) {
            assert(is_sqrt(n, r));
        } else {
            assert((r + 2) * (r + 2) > (r + 1) * (r + 1)) by (nonlinear_arith)
                requires r >= 0;
            assert(is_sqrt(n, r + 1));
        }
    }
    assert(exists|r: int| is_sqrt(n, r));
}

pub proof fn lemma_sqrt_unique(n: int, r: int)
    requires
        is_sqrt(n, r),
    ensures
        r == sqrt_floor(n),
{
    assert(n >= 0) by (nonlinear_arith)
        requires r >= 0 && r * r <= n;
    lemma_sqrt_exists(n);
    let c = sqrt_floor(n);
    if r < c {
        assert((r + 1) * (r + 1) <= c * c) by (nonlinear_arith)
            requires 0 <= r && r + 1 <= c;
        assert(false);
    }
    if c < r {
        assert((c + 1) * (c + 1) <= r * r) by (nonlinear_arith)
            requires 0 <= c && c + 1 <= r;
        assert(false);
    }
}

/// Addition, saturating at the ends of the range.
pub fn add_fix(a: i64, b: i64) -> (r: i64)
    requires
        in_range(a as int),
        in_range(b as int),
    ensures
        r == fadd(a as int, b as int),
        in_range(r as int),
{
    let s: i64 = a + b;
    if s > FIX_MAX {
        FIX_MAX
    } else if s < -FIX_MAX {
        -FIX_MAX
    } else {
        s
    }
}

/// Subtraction, saturating at the ends of the range.
pub fn sub_fix(a: i64, b: i64) -> (r: i64)
    requires
        in_range(a as int),
        in_range(b as int),
    ensures
        r == fsub(a as int, b as int),
        in_range(r as int),
{
    let s: i64 = a - b;
    if s > FIX_MAX {
        FIX_MAX
    } else if s < -FIX_MAX {
        -FIX_MAX
    } else {
        s
    }
}

proof fn lemma_abs_mul(a: int, b: int)
    ensures
        iabs(a) * iabs(b) == iabs(a * b),
        ((a < 0) != (b < 0) && iabs(a * b) != 0) ==> a * b < 0,
        ((a < 0) == (b < 0)) ==> a * b >= 0,
    decreases 0int,
{
    assert(iabs(a) * iabs(b) == iabs(a * b)) by (nonlinear_arith);
    assert(((a < 0) != (b < 0) && iabs(a * b) != 0) ==> a * b < 0) by (nonlinear_arith);
    assert(((a < 0) == (b < 0)) ==> a * b >= 0) by (nonlinear_arith);
}

/// Multiplication of two scalars, truncating toward zero and saturating.
pub fn mul_fix(a: i64, b: i64) -> (r: i64)
    requires
        in_range(a as int),
        in_range(b as int),
    ensures
        r == fmul(a as int, b as int),
        in_range(r as int),
{
    let ua: u64 = if a < 0 {
        (-a) as u64
    } else {
        a as u64
    };
    let ub: u64 = if b < 0 {
        (-b) as u64
    } else {
        b as u64
    };
    proof {
        assert(ua == iabs(a as int));
        assert(ub == iabs(b as int));
        assert(iabs(a as int) * iabs(b as int) <= (FIX_MAX as int) * (FIX_MAX as int))
            by (nonlinear_arith)
            requires
                0 <= iabs(a as int) <= FIX_MAX as int,
                0 <= iabs(b as int) <= FIX_MAX as int;
        lemma_abs_mul(a as int, b as int);
    }
    let p: u128 = (ua as u128) * (ub as u128);
    let q: u128 = p / (SCALE as u128);
    let qc: i64 = if q > (FIX_MAX as u128) {
        FIX_MAX
    } else {
        q as i64
    };
    proof {
        assert(p == iabs((a as int) * (b as int)));
        assert(q == iabs((a as int) * (b as int)) / (SCALE as int));
    }
    if (a < 0) != (b < 0) {
        -qc
    } else {
        qc
    }
}

/// Division of two scalars, truncating toward zero and saturating.
pub fn div_fix(a: i64, b: i64) -> (r: i64)
    requires
        in_range(a as int),
        in_range(b as int),
        b != 0,
    ensures
        r == fdiv(a as int, b as int),
        in_range(r as int),
{
    let ua: u64 = if a < 0 {
        (-a) as u64
    } else {
        a as u64
    };
    let ub: u64 = if b < 0 {
        (-b) as u64
    } else {
        b as u64
    };
    proof {
        assert(ua == iabs(a as int));
        assert(ub == iabs(b as int));
        assert((ua as int) * (SCALE as int) <= (FIX_MAX as int) * (SCALE as int))
            by (nonlinear_arith)
            requires 0 <= ua as int <= FIX_MAX as int;
    }
    let n: u128 = (ua as u128) * (SCALE as u128);
    let q: u128 = n / (ub as u128);
    let qc: i64 = if q > (FIX_MAX as u128) {
        FIX_MAX
    } else {
        q as i64
    };
    proof {
        assert(q == (iabs(a as int) * (SCALE as int)) / (iabs(b as int)));
    }
    if (a < 0) != (b < 0) {
        -qc
    } else {
        qc
    }
}

/// Floor of the square root of a machine integer no larger than SCALE².
fn isqrt64(n: u64) -> (r: u64)
    requires
        n <= 1_000_000_000_000_000_000,
    ensures
        is_sqrt(n as int, r as int),
        r < 2_000_000_000,
{
    let mut lo: u64 = 0;
    let mut hi: u64 = 2_000_000_000;
    while lo + 1 < hi
        invariant
            (lo as int) * (lo as int) <= n as int,
            (n as int) < (hi as int) * (hi as int),
            lo < hi,
            hi <= 2_000_000_000,
        decreases hi - lo,
    {
        let mid: u64 = lo + (hi - lo) / 2;
        proof {
            assert((mid as int) * (mid as int) <= 4_000_000_000_000_000_000)
                by (nonlinear_arith)
                requires 0 <= mid as int <= 2_000_000_000;
        }
        let sq: u128 = (mid as u128) * (mid as u128);
        if sq <= (n as u128) {
            lo = mid;
        } else {
            hi = mid;
        }
    }
    lo
}

/// Square root of a nonnegative scalar.
pub fn sqrt_fix(a: i64) -> (r: i64)
    requires
        0 <= a,
        in_range(a as int),
    ensures
        r == fsqrt(a as int),
        is_sqrt((a as int) * (SCALE as int), r as int),
        0 <= r,
        in_range(r as int),
        a <= SCALE ==> r <= SCALE,
        a == 0 ==> r == 0,
{
    proof {
        assert((a as int) * (SCALE as int) <= 1_000_000_000_000_000_000int)
            by (nonlinear_arith)
            requires 0 <= a as int <= FIX_MAX as int;
    }
    let n: u64 = (a as u64) * (SCALE as u64);
    let r: u64 = isqrt64(n);
    proof {
        lemma_sqrt_unique(n as int, r as int);
        assert(r as int <= 2_000_000_000);
        if a == 0 && r >= 1 {
            assert((r as int) * (r as int) >= 1) by (nonlinear_arith)
                requires r as int >= 1;
            assert(false);
        }
        if a <= SCALE {
            if r as int > SCALE as int {
                assert((SCALE as int + 1) * (SCALE as int + 1) <= (r as int) * (r as int))
                    by (nonlinear_arith)
                    requires SCALE as int + 1 <= r as int, 0 <= SCALE as int;
                assert((a as int) * (SCALE as int) <= (SCALE as int) * (SCALE as int))
                    by (nonlinear_arith)
                    requires a as int <= SCALE as int, 0 <= SCALE as int, 0 <= a as int;
                assert(false);
            }
        }
    }
    r as i64
}

/// Clamp a scalar into [0, 1].
pub fn clamp(value: i64) -> (r: i64)
    ensures
        r == clamp01(value as int),
        0 <= r <= SCALE,
{
    if value < 0 {
        0
    } else if value > SCALE {
        SCALE
    } else {
        value
    }
}


/// Division by a positive scalar is monotone in the dividend.
pub proof fn lemma_fdiv_monotone(x: int, y: int, b: int)
    requires
        x <= y,
        b > 0,
    ensures
        fdiv(x, b) <= fdiv(y, b),
{
    let s = SCALE as int;
    if x >= 0 {
        assert(x * s <= y * s) by (nonlinear_arith)
            requires x <= y, s > 0;
        vstd::arithmetic::div_mod::lemma_div_is_ordered(x * s, y * s, b);
        assert(raw_div(x, b) == (x * s) / b);
        assert(raw_div(y, b) == (y * s) / b);
    } else if y < 0 {
        assert((-y) * s <= (-x) * s) by (nonlinear_arith)
            requires x <= y, s > 0;
        vstd::arithmetic::div_mod::lemma_div_is_ordered((-y) * s, (-x) * s, b);
        assert(raw_div(x, b) == -(((-x) * s) / b));
        assert(raw_div(y, b) == -(((-y) * s) / b));
    } else {
        assert(((-x) * s) / b >= 0) by (nonlinear_arith)
            requires x < 0, s > 0, b > 0;
        assert((y * s) / b >= 0) by (nonlinear_arith)
            requires y >= 0, s > 0, b > 0;
        assert(raw_div(x, b) == -(((-x) * s) / b));
        assert(raw_div(y, b) == (y * s) / b);
    }
}

/// Dividing a representable scalar by one unit leaves it unchanged.
pub proof fn lemma_fdiv_unit(x: int)
    requires
        in_range(x),
    ensures
        fdiv(x, SCALE as int) == x,
{
    let s = SCALE as int;
    assert((iabs(x) * s) / s == iabs(x)) by (nonlinear_arith)
        requires s > 0;
    if x >= 0 {
        assert(raw_div(x, s) == iabs(x));
    } else {
        assert(raw_div(x, s) == -iabs(x));
    }
}

/// One unit squared is one unit.
pub proof fn lemma_fmul_unit_sq()
    ensures
        fmul(SCALE as int, SCALE as int) == SCALE as int,
{
    let s = SCALE as int;
    assert(iabs(s * s) / s == s) by (nonlinear_arith)
        requires s > 0;
}

/// Zero divided by anything nonzero is zero.
pub proof fn lemma_fdiv_zero(b: int)
    requires
        b != 0,
    ensures
        fdiv(0, b) == 0,
{
    assert((iabs(0) * (SCALE as int)) / iabs(b) == 0) by (nonlinear_arith)
        requires b != 0;
}


/// Multiplying a representable scalar by one unit leaves it unchanged.
pub proof fn lemma_fmul_one(a: int)
    requires
        in_range(a),
    ensures
        fmul(a, SCALE as int) == a,
{
    let s = SCALE as int;
    assert(iabs(a * s) == iabs(a) * s) by (nonlinear_arith)
        requires s > 0;
    assert((iabs(a) * s) / s == iabs(a)) by (nonlinear_arith)
        requires s > 0;
    if a >= 0 {
        assert(raw_mul(a, s) == iabs(a));
    } else {
        assert(raw_mul(a, s) == -iabs(a));
    }
}

/// A product of two scalars from the unit interval stays in it.
pub proof fn lemma_fmul_unit_interval(a: int, b: int)
    requires
        0 <= a <= SCALE as int,
        0 <= b <= SCALE as int,
    ensures
        0 <= fmul(a, b) <= SCALE as int,
{
    let s = SCALE as int;
    assert(iabs(a * b) == a * b) by (nonlinear_arith)
        requires a >= 0, b >= 0;
    assert(a * b <= s * s) by (nonlinear_arith)
        requires 0 <= a <= s, 0 <= b <= s;
    vstd::arithmetic::div_mod::lemma_div_is_ordered(a * b, s * s, s);
    assert((s * s) / s == s) by (nonlinear_arith)
        requires s > 0;
    assert((a * b) / s >= 0) by (nonlinear_arith)
        requires a * b >= 0, s > 0;
}

/// A positive scalar divided by itself is one unit.
pub proof fn lemma_fdiv_self(n: int)
    requires
        0 < n,
    ensures
        fdiv(n, n) == SCALE as int,
{
    let s = SCALE as int;
    assert((iabs(n) * s) / iabs(n) == s) by (nonlinear_arith)
        requires n > 0;
}

/// A quotient of nonnegative scalars stays within one unit when the
/// dividend is at most the divisor.
pub proof fn lemma_fdiv_le_one(n: int, d: int)
    requires
        0 <= n <= d,
        0 < d,
    ensures
        0 <= fdiv(n, d) <= SCALE as int,
{
    let s = SCALE as int;
    assert(n * s <= d * s) by (nonlinear_arith)
        requires n <= d, 0 < s;
    vstd::arithmetic::div_mod::lemma_div_is_ordered(n * s, d * s, d);
    assert((d * s) / d == s) by (nonlinear_arith)
        requires 0 < d;
    assert(n * s >= 0) by (nonlinear_arith)
        requires n >= 0, s > 0;
    vstd::arithmetic::div_mod::lemma_div_pos_is_pos(n * s, d);
}

/// A quotient of nonnegative scalars stays within two units when the
/// dividend is at most twice the divisor.
pub proof fn lemma_fdiv_le_two(n: int, d: int)
    requires
        0 <= n <= 2 * d,
        0 < d,
    ensures
        0 <= fdiv(n, d) <= 2 * (SCALE as int),
{
    let s = SCALE as int;
    assert(n * s <= (2 * d) * s) by (nonlinear_arith)
        requires n <= 2 * d, 0 < s;
    vstd::arithmetic::div_mod::lemma_div_is_ordered(n * s, (2 * d) * s, d);
    assert(((2 * d) * s) / d == 2 * s) by (nonlinear_arith)
        requires 0 < d;
    assert(n * s >= 0) by (nonlinear_arith)
        requires n >= 0, s > 0;
    vstd::arithmetic::div_mod::lemma_div_pos_is_pos(n * s, d);
}

/// One unit is its own square root.
pub proof fn lemma_fsqrt_one()
    ensures
        fsqrt(SCALE as int) == SCALE as int,
{
    let s = SCALE as int;
    assert(s * s < (s + 1) * (s + 1)) by (nonlinear_arith)
        requires s >= 0;
    assert(is_sqrt(s * s, s));
    lemma_sqrt_unique(s * s, s);
}

} // verus!
