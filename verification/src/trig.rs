//! Integer trigonometry on binary angle units.
//!
//! Angles are measured in units of `FULL_TURN` per revolution, so a half
//! turn (pi radians) is exact. `sin_q`/`cos_q` return Q16 fixed-point
//! values from a quadratic approximation that is exact at the axis
//! crossings and extrema; `atan2_units` is a per-octant linear
//! interpolation of the two-argument arctangent that is exact on the axes
//! and whose sign always matches the vertical component.

use vstd::prelude::*;
use vstd::arithmetic::div_mod::lemma_fundamental_div_mod;
use crate::vec2::Vec2;
use crate::{FULL_TURN, HALF_TURN, QUARTER_TURN, EIGHTH_TURN, TRIG_SCALE};

verus! {

/// Division truncating toward zero (what machine division does), as a
/// mathematical function.
pub open spec fn div_trunc(a: int, d: int) -> int
    recommends d > 0,
{
    if a >= 0 {
        a / d
    } else {
        -((-a) / d)
    }
}

/// Truncating division never grows the magnitude.
pub proof fn lemma_div_trunc_bounds(a: int, d: int, bound: int)
    requires
        d > 0,
        -bound <= a <= bound,
        0 <= bound,
    ensures
        -bound <= div_trunc(a, d) <= bound,
        a >= 0 ==> 0 <= div_trunc(a, d),
        a <= 0 ==> div_trunc(a, d) <= 0,
{
    if a >= 0 {
        vstd::arithmetic::div_mod::lemma_div_pos_is_pos(a, d);
        vstd::arithmetic::div_mod::lemma_div_is_ordered_by_denominator(a, 1, d);
    } else {
        vstd::arithmetic::div_mod::lemma_div_pos_is_pos(-a, d);
        vstd::arithmetic::div_mod::lemma_div_is_ordered_by_denominator(-a, 1, d);
    }
}

/// Truncating division of an `i64` by a positive divisor.
pub fn div_trunc_i64(a: i64, d: i64) -> (r: i64)
    requires
        d > 0,
        a > i64::MIN,
    ensures
        r == div_trunc(a as int, d as int),
{
    if a >= 0 {
        a / d
    } else {
        -((-a) / d)
    }
}

/// Largest magnitude `wrap_angle` accepts.
pub const WRAP_BOUND: i64 = 100_000_000_000_000_000;

/// A multiple of `FULL_TURN` larger than `WRAP_BOUND`.
pub const WRAP_OFFSET: i64 = 104_857_600_000_000_000;

/// Reduces any bounded angle into [0, FULL_TURN).
pub fn wrap_angle(a: i64) -> (r: i64)
    requires
        -WRAP_BOUND <= a <= WRAP_BOUND,
    ensures
        r == norm_angle(a as int),
        0 <= r < FULL_TURN,
{
    let b: i64 = a + WRAP_OFFSET;
    let r: i64 = b % FULL_TURN;
    proof {
        assert(WRAP_OFFSET == FULL_TURN * 1_600_000_000_000);
        vstd::arithmetic::div_mod::lemma_mod_multiples_vanish(
            1_600_000_000_000,
            a as int,
            FULL_TURN as int,
        );
        vstd::arithmetic::div_mod::lemma_mod_bound(b as int, FULL_TURN as int);
    }
    r
}


/// Magnitude bound of a truncating division: the quotient times the
/// divisor never passes the dividend.
pub proof fn lemma_div_trunc_mag(a: int, d: int)
    requires
        d > 0,
    ensures
        a >= 0 ==> 0 <= div_trunc(a, d) && div_trunc(a, d) * d <= a,
        a < 0 ==> div_trunc(a, d) <= 0 && div_trunc(a, d) * d >= a,
{
    if a >= 0 {
        lemma_fundamental_div_mod(a, d);
        vstd::arithmetic::div_mod::lemma_div_pos_is_pos(a, d);
        assert(div_trunc(a, d) * d == d * (a / d)) by (nonlinear_arith)
            requires div_trunc(a, d) == a / d,
        ;
    } else {
        lemma_fundamental_div_mod(-a, d);
        vstd::arithmetic::div_mod::lemma_div_pos_is_pos(-a, d);
        assert(div_trunc(a, d) * d == -(d * ((-a) / d))) by (nonlinear_arith)
            requires div_trunc(a, d) == -((-a) / d),
        ;
    }
}

/// Integer square root (largest r with r * r <= n).
pub open spec fn isqrt_spec(n: int) -> int
    recommends n >= 0,
    decreases n,
{
    if n <= 0 {
        0
    } else {
        let r = isqrt_spec(n - 1);
        if (r + 1) * (r + 1) <= n {
            r + 1
        } else {
            r
        }
    }
}

/// The integer square root brackets its argument.
pub proof fn lemma_isqrt_bracket(n: int)
    requires
        n >= 0,
    ensures
        0 <= isqrt_spec(n),
        isqrt_spec(n) * isqrt_spec(n) <= n,
        n < (isqrt_spec(n) + 1) * (isqrt_spec(n) + 1),
    decreases n,
{
    if n > 0 {
        lemma_isqrt_bracket(n - 1);
        let r = isqrt_spec(n - 1);
        if (r + 1) * (r + 1) <= n {
            assert(n <= (r + 1) * (r + 1));
            assert((r + 2) * (r + 2) > (r + 1) * (r + 1)) by (nonlinear_arith)
                requires r >= 0,
            ;
        }
    }
}

/// Any bracketing value is the integer square root.
proof fn lemma_isqrt_unique(n: int, r: int)
    requires
        n >= 0,
        r >= 0,
        r * r <= n,
        n < (r + 1) * (r + 1),
    ensures
        r == isqrt_spec(n),
{
    lemma_isqrt_bracket(n);
    let s = isqrt_spec(n);
    if r < s {
        assert((r + 1) * (r + 1) <= s * s) by (nonlinear_arith)
            requires 0 <= r, r + 1 <= s,
        ;
        assert(false);
    }
    if s < r {
        assert((s + 1) * (s + 1) <= r * r) by (nonlinear_arith)
            requires 0 <= s, s + 1 <= r,
        ;
        assert(false);
    }
}

/// Integer square root by binary search.
pub fn isqrt64(n: i64) -> (r: i64)
    requires
        0 <= n <= 8_589_934_592,
    ensures
        r == isqrt_spec(n as int),
        0 <= r <= 92_682,
        r * r <= n,
        n < (r + 1) * (r + 1),
{
    let mut lo: i64 = 0;
    let mut hi: i64 = 92_682;
    while lo < hi
        invariant
            0 <= lo <= hi <= 92_682,
            0 <= n <= 8_589_934_592,
            lo * lo <= n,
            n < (hi + 1) * (hi + 1),
        decreases hi - lo,
    {
        let mid = (lo + hi + 1) / 2;
        proof {
            lemma_fundamental_div_mod(lo as int + hi as int + 1, 2);
            assert(lo < mid <= hi);
            assert(mid * mid <= 92_682i64 * 92_682i64) by (nonlinear_arith)
                requires 0 <= mid <= 92_682,
            ;
        }
        if mid * mid <= n {
            lo = mid;
        } else {
            hi = mid - 1;
        }
    }
    proof {
        lemma_isqrt_unique(n as int, lo as int);
    }
    lo
}

/// The Q16 facing vector of a normalised angle: the quadratic cosine and
/// sine pair, scaled back onto the unit circle where the approximation
/// lands outside it, so the squared length never exceeds the scale's
/// square (and movement and turn rates stay within their stated limits).
pub open spec fn unit_vec_spec(a: int) -> Vec2 {
    let cx = cos_q_spec(a);
    let cy = sin_q_spec(a);
    if cx * cx + cy * cy <= TRIG_SCALE * TRIG_SCALE {
        Vec2 { x: cx as i64, y: cy as i64 }
    } else {
        let n = isqrt_spec(cx * cx + cy * cy);
        Vec2 {
            x: div_trunc(cx * TRIG_SCALE, n + 1) as i64,
            y: div_trunc(cy * TRIG_SCALE, n + 1) as i64,
        }
    }
}

/// The facing vector lies within the unit circle: each component within
/// the scale, and the squared length at most the scale's square.
pub proof fn lemma_unit_vec_norm(a: int)
    requires
        0 <= a < FULL_TURN,
    ensures
        ({
            let v = unit_vec_spec(a);
            &&& -TRIG_SCALE <= v.x <= TRIG_SCALE
            &&& -TRIG_SCALE <= v.y <= TRIG_SCALE
            &&& v.x * v.x + v.y * v.y <= TRIG_SCALE * TRIG_SCALE
        }),
{
    lemma_sin_q_bounds(a);
    lemma_cos_q_bounds(a);
    let t = TRIG_SCALE as int;
    let cx = cos_q_spec(a);
    let cy = sin_q_spec(a);
    let s = cx * cx + cy * cy;
    assert(0 <= cx * cx <= t * t && 0 <= cy * cy <= t * t) by (nonlinear_arith)
        requires -t <= cx <= t, -t <= cy <= t, t > 0,
    ;
    if s <= t * t {
        let v = unit_vec_spec(a);
        assert(v.x == cx && v.y == cy);
        assert(v.x * v.x + v.y * v.y <= t * t) by (nonlinear_arith)
            requires v.x == cx, v.y == cy, cx * cx + cy * cy <= t * t,
        ;
    } else {
        lemma_isqrt_bracket(s);
        let n = isqrt_spec(s);
        lemma_div_trunc_mag(cx * t, n + 1);
        lemma_div_trunc_mag(cy * t, n + 1);
        let vx = div_trunc(cx * t, n + 1);
        let vy = div_trunc(cy * t, n + 1);
        assert(vx * vx >= 0 && vy * vy >= 0) by (nonlinear_arith);
        assert((vx * (n + 1)) * (vx * (n + 1)) <= (cx * t) * (cx * t)) by (nonlinear_arith)
            requires
                n + 1 > 0,
                cx * t >= 0 ==> 0 <= vx && vx * (n + 1) <= cx * t,
                cx * t < 0 ==> vx <= 0 && vx * (n + 1) >= cx * t,
        ;
        assert((vy * (n + 1)) * (vy * (n + 1)) <= (cy * t) * (cy * t)) by (nonlinear_arith)
            requires
                n + 1 > 0,
                cy * t >= 0 ==> 0 <= vy && vy * (n + 1) <= cy * t,
                cy * t < 0 ==> vy <= 0 && vy * (n + 1) >= cy * t,
        ;
        assert((vx * (n + 1)) * (vx * (n + 1)) == (vx * vx) * ((n + 1) * (n + 1))
            && (cx * t) * (cx * t) == (cx * cx) * (t * t)) by (nonlinear_arith);
        assert((vy * (n + 1)) * (vy * (n + 1)) == (vy * vy) * ((n + 1) * (n + 1))
            && (cy * t) * (cy * t) == (cy * cy) * (t * t)) by (nonlinear_arith);
        assert((vx * vx) * ((n + 1) * (n + 1)) + (vy * vy) * ((n + 1) * (n + 1)) <= (cx * cx) * (t
            * t) + (cy * cy) * (t * t));
        assert((vx * vx + vy * vy) * ((n + 1) * (n + 1)) == (vx * vx) * ((n + 1) * (n + 1)) + (vy
            * vy) * ((n + 1) * (n + 1))) by (nonlinear_arith);
        assert(s * (t * t) == (cx * cx) * (t * t) + (cy * cy) * (t * t)) by (nonlinear_arith)
            requires s == cx * cx + cy * cy,
        ;
        assert((vx * vx + vy * vy) * ((n + 1) * (n + 1)) <= s * (t * t));
        assert(vx * vx + vy * vy <= t * t) by (nonlinear_arith)
            requires
                (vx * vx + vy * vy) * ((n + 1) * (n + 1)) <= s * (t * t),
                s < (n + 1) * (n + 1),
                n + 1 > 0,
                t > 0,
                vx * vx + vy * vy >= 0,
        ;
        assert(-t <= vx <= t && -t <= vy <= t) by (nonlinear_arith)
            requires vx * vx + vy * vy <= t * t, t > 0, vx * vx >= 0, vy * vy >= 0,
        ;
        assert(unit_vec_spec(a).x == vx && unit_vec_spec(a).y == vy);
    }
}

/// The Q16 facing vector of an angle in [0, FULL_TURN).
pub fn unit_vec_of(a: i64) -> (r: Vec2)
    requires
        0 <= a < FULL_TURN,
    ensures
        r == unit_vec_spec(a as int),
        -TRIG_SCALE <= r.x <= TRIG_SCALE,
        -TRIG_SCALE <= r.y <= TRIG_SCALE,
        r.x * r.x + r.y * r.y <= TRIG_SCALE * TRIG_SCALE,
{
    proof {
        lemma_unit_vec_norm(a as int);
    }
    let cx = cos_q(a);
    let cy = sin_q(a);
    proof {
        assert(0 <= cx * cx <= 65536i64 * 65536i64 && 0 <= cy * cy <= 65536i64 * 65536i64)
            by (nonlinear_arith)
            requires -65536 <= cx <= 65536, -65536 <= cy <= 65536,
        ;
        assert(-4_294_967_296i64 <= cx * TRIG_SCALE <= 4_294_967_296i64
            && -4_294_967_296i64 <= cy * TRIG_SCALE <= 4_294_967_296i64) by (nonlinear_arith)
            requires -65536 <= cx <= 65536, -65536 <= cy <= 65536, TRIG_SCALE == 65536,
        ;
    }
    let s = cx * cx + cy * cy;
    if s <= TRIG_SCALE * TRIG_SCALE {
        Vec2 { x: cx, y: cy }
    } else {
        let n = isqrt64(s);
        let vx = div_trunc_i64(cx * TRIG_SCALE, n + 1);
        let vy = div_trunc_i64(cy * TRIG_SCALE, n + 1);
        Vec2 { x: vx, y: vy }
    }
}

/// A Q16-scaled step along a vector inside the unit circle is no longer
/// than the unscaled step: the truncated per-axis displacements satisfy
/// dx * dx + dy * dy <= k * k.
pub proof fn lemma_scaled_step_bound(k: int, vx: int, vy: int)
    requires
        0 <= k,
        vx * vx + vy * vy <= TRIG_SCALE * TRIG_SCALE,
    ensures
        ({
            let dx = div_trunc(k * vx, TRIG_SCALE as int);
            let dy = div_trunc(k * vy, TRIG_SCALE as int);
            dx * dx + dy * dy <= k * k
        }),
{
    let t = TRIG_SCALE as int;
    let dx = div_trunc(k * vx, t);
    let dy = div_trunc(k * vy, t);
    lemma_div_trunc_mag(k * vx, t);
    lemma_div_trunc_mag(k * vy, t);
    assert((dx * t) * (dx * t) <= (k * vx) * (k * vx)) by (nonlinear_arith)
        requires
            t > 0,
            k * vx >= 0 ==> 0 <= dx && dx * t <= k * vx,
            k * vx < 0 ==> dx <= 0 && dx * t >= k * vx,
    ;
    assert((dy * t) * (dy * t) <= (k * vy) * (k * vy)) by (nonlinear_arith)
        requires
            t > 0,
            k * vy >= 0 ==> 0 <= dy && dy * t <= k * vy,
            k * vy < 0 ==> dy <= 0 && dy * t >= k * vy,
    ;
    assert((dx * t) * (dx * t) == (dx * dx) * (t * t) && (k * vx) * (k * vx) == (k * k) * (vx
        * vx)) by (nonlinear_arith);
    assert((dy * t) * (dy * t) == (dy * dy) * (t * t) && (k * vy) * (k * vy) == (k * k) * (vy
        * vy)) by (nonlinear_arith);
    assert((dx * dx) * (t * t) + (dy * dy) * (t * t) <= (k * k) * (vx * vx) + (k * k) * (vy * vy));
    assert((dx * dx + dy * dy) * (t * t) == (dx * dx) * (t * t) + (dy * dy) * (t * t))
        by (nonlinear_arith);
    assert((k * k) * (vx * vx) + (k * k) * (vy * vy) == (k * k) * (vx * vx + vy * vy))
        by (nonlinear_arith);
    assert((k * k) * (vx * vx + vy * vy) <= (k * k) * (t * t)) by (nonlinear_arith)
        requires vx * vx + vy * vy <= t * t, k * k >= 0,
    ;
    assert(k * k >= 0) by (nonlinear_arith);
    assert(dx * dx + dy * dy <= k * k) by (nonlinear_arith)
        requires
            (dx * dx + dy * dy) * (t * t) <= (k * k) * (t * t),
            t * t > 0,
    ;
}

/// Normalises an angle into [0, FULL_TURN).
pub open spec fn norm_angle(a: int) -> int {
    a % (FULL_TURN as int)
}

/// Q16 sine of a normalised angle: a parabola per half turn.
pub open spec fn sin_q_spec(a: int) -> int
    recommends 0 <= a < FULL_TURN,
{
    if a < HALF_TURN {
        (a * (HALF_TURN - a)) / 4096
    } else {
        -(((a - HALF_TURN) * (FULL_TURN - a)) / 4096)
    }
}

/// Q16 cosine: the sine shifted a quarter turn.
pub open spec fn cos_q_spec(a: int) -> int
    recommends 0 <= a < FULL_TURN,
{
    sin_q_spec(norm_angle(a + QUARTER_TURN))
}

/// On [0, HALF_TURN] the parabola numerator stays within its scale.
proof fn lemma_parabola_bounds(a: int)
    requires
        0 <= a <= HALF_TURN,
    ensures
        0 <= a * (HALF_TURN - a) <= 4096 * TRIG_SCALE,
{
    assert(0 <= a * (HALF_TURN - a) <= 4096 * 65536) by (nonlinear_arith)
        requires 0 <= a <= HALF_TURN,
    ;
}

/// The sine approximation stays within [-TRIG_SCALE, TRIG_SCALE].
pub proof fn lemma_sin_q_bounds(a: int)
    requires
        0 <= a < FULL_TURN,
    ensures
        -TRIG_SCALE <= sin_q_spec(a) <= TRIG_SCALE,
{
    if a < HALF_TURN {
        lemma_parabola_bounds(a);
    } else {
        lemma_parabola_bounds(a - HALF_TURN);
        assert((a - HALF_TURN) * (FULL_TURN - a) == (a - HALF_TURN) * (HALF_TURN - (a - HALF_TURN)))
            by (nonlinear_arith);
    }
}

/// The cosine approximation stays within [-TRIG_SCALE, TRIG_SCALE].
pub proof fn lemma_cos_q_bounds(a: int)
    requires
        0 <= a < FULL_TURN,
    ensures
        -TRIG_SCALE <= cos_q_spec(a) <= TRIG_SCALE,
{
    lemma_sin_q_bounds(norm_angle(a + QUARTER_TURN));
}

/// Q16 sine of an angle in [0, FULL_TURN).
pub fn sin_q(a: i64) -> (r: i64)
    requires
        0 <= a < FULL_TURN,
    ensures
        r == sin_q_spec(a as int),
        -TRIG_SCALE <= r <= TRIG_SCALE,
{
    if a < HALF_TURN {
        proof { lemma_parabola_bounds(a as int); }
        (a * (HALF_TURN - a)) / 4096
    } else {
        proof {
            lemma_parabola_bounds(a - HALF_TURN);
            assert((a - HALF_TURN) * (FULL_TURN - a) == (a - HALF_TURN) * (HALF_TURN - (a - HALF_TURN)))
                by (nonlinear_arith);
        }
        -(((a - HALF_TURN) * (FULL_TURN - a)) / 4096)
    }
}

/// Q16 cosine of an angle in [0, FULL_TURN).
pub fn cos_q(a: i64) -> (r: i64)
    requires
        0 <= a < FULL_TURN,
    ensures
        r == cos_q_spec(a as int),
        -TRIG_SCALE <= r <= TRIG_SCALE,
{
    let b: i64 = if a + QUARTER_TURN >= FULL_TURN {
        a + QUARTER_TURN - FULL_TURN
    } else {
        a + QUARTER_TURN
    };
    assert(b == norm_angle(a + QUARTER_TURN));
    sin_q(b)
}

/// First-octant interpolation: ceiling of EIGHTH_TURN * ay / ax, so a
/// non-zero vertical component never rounds to a zero angle.
pub open spec fn octant_ratio(ay: int, ax: int) -> int
    recommends 0 <= ay <= ax,
{
    if ay == 0 {
        0
    } else {
        (EIGHTH_TURN * ay + ax - 1) / ax
    }
}

/// The first-octant ratio lies in [0, EIGHTH_TURN], and is positive
/// exactly when `ay` is.
proof fn lemma_octant_ratio_bounds(ay: int, ax: int)
    requires
        0 <= ay <= ax,
        0 < ax,
    ensures
        0 <= octant_ratio(ay, ax) <= EIGHTH_TURN,
        ay > 0 ==> octant_ratio(ay, ax) >= 1,
{
    if ay > 0 {
        let n = EIGHTH_TURN * ay + ax - 1;
        let q = n / ax;
        lemma_fundamental_div_mod(n, ax);
        // q >= 1: n >= ax because EIGHTH_TURN * ay >= 1.
        assert(EIGHTH_TURN * ay >= EIGHTH_TURN) by (nonlinear_arith)
            requires ay >= 1,
        ;
        assert(ax * q + n % ax == n);
        if q <= 0 {
            assert(ax * q <= 0) by (nonlinear_arith)
                requires q <= 0, ax > 0,
            ;
            assert(n < ax);
            assert(false);
        }
        if q > EIGHTH_TURN {
            assert(ax * q >= ax * (EIGHTH_TURN + 1)) by (nonlinear_arith)
                requires q >= EIGHTH_TURN + 1, ax > 0,
            ;
            assert(EIGHTH_TURN * ay <= EIGHTH_TURN * ax) by (nonlinear_arith)
                requires ay <= ax, EIGHTH_TURN > 0,
            ;
            assert(ax * (EIGHTH_TURN + 1) == EIGHTH_TURN * ax + ax) by (nonlinear_arith);
            assert(false);
        }
    }
}

/// The heading angle of the vector (x, y), in signed binary angle units
/// within (-HALF_TURN, HALF_TURN].
pub open spec fn atan2_units_spec(y: int, x: int) -> int {
    let ax = if x < 0 { -x } else { x };
    let ay = if y < 0 { -y } else { y };
    let base = if ax >= ay {
        octant_ratio(ay, ax)
    } else {
        QUARTER_TURN - octant_ratio(ax, ay)
    };
    let mag = if x >= 0 { base } else { HALF_TURN - base };
    if y >= 0 { mag } else { -mag }
}

/// Range and sign facts for the interpolated arctangent: the result lies
/// in (-HALF_TURN, HALF_TURN], its sign matches the sign of `y`, it is
/// zero on the positive x axis and a half turn on the negative x axis.
pub proof fn lemma_atan2_units_range(y: int, x: int)
    ensures
        -HALF_TURN < atan2_units_spec(y, x) <= HALF_TURN,
        y > 0 ==> atan2_units_spec(y, x) > 0,
        y < 0 ==> atan2_units_spec(y, x) < 0,
        y == 0 && x >= 0 ==> atan2_units_spec(y, x) == 0,
        y == 0 && x < 0 ==> atan2_units_spec(y, x) == HALF_TURN,
{
    let ax = if x < 0 { -x } else { x };
    let ay = if y < 0 { -y } else { y };
    if ax >= ay {
        if ax > 0 {
            lemma_octant_ratio_bounds(ay, ax);
        }
    } else {
        lemma_octant_ratio_bounds(ax, ay);
    }
}

/// Heading of (x, y) in signed binary angle units, (-HALF_TURN, HALF_TURN].
pub fn atan2_units(y: i64, x: i64) -> (r: i64)
    requires
        -1_000_000_000_000 <= y <= 1_000_000_000_000,
        -1_000_000_000_000 <= x <= 1_000_000_000_000,
    ensures
        r == atan2_units_spec(y as int, x as int),
        -HALF_TURN < r <= HALF_TURN,
        y > 0 ==> r > 0,
        y < 0 ==> r < 0,
        y == 0 && x >= 0 ==> r == 0,
{
    proof { lemma_atan2_units_range(y as int, x as int); }
    let ax: i64 = if x < 0 { -x } else { x };
    let ay: i64 = if y < 0 { -y } else { y };
    let base: i64 = if ax >= ay {
        if ay == 0 { 0 } else { (EIGHTH_TURN * ay + ax - 1) / ax }
    } else {
        QUARTER_TURN - (if ax == 0 { 0 } else { (EIGHTH_TURN * ax + ay - 1) / ay })
    };
    let mag: i64 = if x >= 0 { base } else { HALF_TURN - base };
    if y >= 0 { mag } else { -mag }
}

} // verus!
