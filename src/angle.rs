use vstd::prelude::*;
use crate::geometry::{abs, div_toward_zero, div_trunc, Dir, Point, UNIT, MAX_STEP_MS};

verus! {

/// Half a turn, in microradians (angles throughout count microradians).
pub const PI_MICRO: i64 = 3_141_593;

/// A full turn, in microradians.
pub const TWO_PI_MICRO: i64 = 6_283_186;

/// A quarter turn, in microradians.
pub const HALF_PI_MICRO: i64 = 1_570_796;

/// Largest turn rate, in microradians per second.
pub const MAX_TURN_RATE: i64 = 100_000_000;

/// `a` is an angle in the canonical range `[-π, π)`.
pub open spec fn canonical(a: int) -> bool {
    -PI_MICRO <= a < PI_MICRO
}

/// A measure that each wrapping step decreases.
pub open spec fn wrap_measure(a: int) -> int {
    if a >= 0 {
        2 * a + 1
    } else {
        -2 * a
    }
}

/// The angle equal to `a` modulo a full turn, in `[-π, π)`.
pub open spec fn wrapped(a: int) -> int
    decreases wrap_measure(a),
{
    if a >= PI_MICRO {
        wrapped(a - TWO_PI_MICRO)
    } else if a < -PI_MICRO {
        wrapped(a + TWO_PI_MICRO)
    } else {
        a
    }
}

proof fn lemma_wrapped_canonical(a: int)
    ensures
        canonical(wrapped(a)),
    decreases wrap_measure(a),
{
    if a >= PI_MICRO {
        lemma_wrapped_canonical(a - TWO_PI_MICRO);
    } else if a < -PI_MICRO {
        lemma_wrapped_canonical(a + TWO_PI_MICRO);
    }
}

/// Brings an angle into `[-π, π)`.
pub fn wrap(a: i64) -> (r: i64)
    requires
        -8 * PI_MICRO <= a <= 8 * PI_MICRO,
    ensures
        r == wrapped(a as int),
        canonical(r as int),
{
    proof {
        lemma_wrapped_canonical(a as int);
    }
    let mut v: i64 = a;
    while v >= PI_MICRO || v < -PI_MICRO
        invariant
            -8 * PI_MICRO <= v <= 8 * PI_MICRO,
            wrapped(v as int) == wrapped(a as int),
        decreases wrap_measure(v as int),
    {
        if v >= PI_MICRO {
            v = v - TWO_PI_MICRO;
        } else {
            v = v + TWO_PI_MICRO;
        }
    }
    v
}

/// Sine on `[0, π]`, scaled by `UNIT`, by Bhaskara's rational approximation.
pub open spec fn sine_upper(x: int) -> int {
    let p = PI_MICRO as int;
    let q = x * (p - x);
    (16 * UNIT * q) / (5 * p * p - 4 * q)
}

/// Sine of a canonical angle, scaled by `UNIT`.
pub open spec fn sine(a: int) -> int {
    if a >= 0 {
        sine_upper(a)
    } else {
        -sine_upper(-a)
    }
}

/// Cosine of an angle, scaled by `UNIT`.
pub open spec fn cosine(a: int) -> int {
    sine(wrapped(a + HALF_PI_MICRO))
}

proof fn lemma_sine_upper_bounds(x: int)
    requires
        0 <= x <= PI_MICRO,
    ensures
        0 <= sine_upper(x) <= UNIT,
        5 * PI_MICRO * PI_MICRO - 4 * (x * (PI_MICRO - x)) > 0,
{
    let p = PI_MICRO as int;
    let q = x * (p - x);
    assert(0 <= q) by (nonlinear_arith)
        requires
            0 <= x <= p,
            q == x * (p - x),
    ;
    assert(4 * q <= p * p) by (nonlinear_arith)
        requires
            q == x * (p - x),
    ;
    let d = 5 * p * p - 4 * q;
    assert(d >= 4 * p * p);
    assert(p * p > 0) by (nonlinear_arith)
        requires
            p > 0,
    ;
    assert(16 * UNIT * q <= UNIT * d) by (nonlinear_arith)
        requires
            4 * q <= p * p,
            d == 5 * p * p - 4 * q,
    ;
    assert((16 * UNIT * q) / d <= (UNIT * d) / d) by (nonlinear_arith)
        requires
            0 <= 16 * UNIT * q <= UNIT * d,
            d > 0,
    ;
    assert((UNIT * d) / d == UNIT) by (nonlinear_arith)
        requires
            d > 0,
    ;
    assert(0 <= (16 * UNIT * q) / d) by (nonlinear_arith)
        requires
            0 <= 16 * UNIT * q,
            d > 0,
    ;
}

fn sine_of_upper(x: i64) -> (r: i64)
    requires
        0 <= x <= PI_MICRO,
    ensures
        r == sine_upper(x as int),
        0 <= r <= UNIT,
{
    proof {
        lemma_sine_upper_bounds(x as int);
    }
    let p: i128 = PI_MICRO as i128;
    let xx: i128 = x as i128;
    assert(0 <= xx * (p - xx) <= p * p) by (nonlinear_arith)
        requires
            0 <= xx <= p,
    ;
    let q: i128 = xx * (p - xx);
    let d: i128 = 5 * p * p - 4 * q;
    let r: i128 = (16 * 1000 * q) / d;
    r as i64
}

/// Sine of a canonical angle, scaled by `UNIT`.
pub fn sin(a: i64) -> (r: i64)
    requires
        canonical(a as int),
    ensures
        r == sine(a as int),
        -UNIT <= r <= UNIT,
{
    if a >= 0 {
        sine_of_upper(a)
    } else {
        -sine_of_upper(-a)
    }
}

/// Cosine of an angle, scaled by `UNIT`.
pub fn cos(a: i64) -> (r: i64)
    requires
        canonical(a as int),
    ensures
        r == cosine(a as int),
        -UNIT <= r <= UNIT,
{
    let b = wrap(a + HALF_PI_MICRO);
    sin(b)
}

/// The direction an angle points to; angle zero points along `+y` and
/// positive angles turn counter-clockwise.
pub open spec fn heading(a: int) -> Dir {
    Dir { x: (-sine(a)) as i64, y: cosine(a) as i64 }
}

/// The unit direction of a canonical angle.
pub fn heading_of(a: i64) -> (r: Dir)
    requires
        canonical(a as int),
    ensures
        r == heading(a as int),
        r.wf(),
{
    let s = sin(a);
    let c = cos(a);
    Dir { x: -s, y: c }
}

/// A mount offset rotated by the angle `a`, rounded toward zero.
pub open spec fn rotated(off: Point, a: int) -> Point {
    Point {
        x: div_toward_zero(off.x * cosine(a) - off.y * sine(a), UNIT as int) as i64,
        y: div_toward_zero(off.x * sine(a) + off.y * cosine(a), UNIT as int) as i64,
    }
}

/// Largest magnitude of a mount offset component.
pub const OFFSET_LIMIT: i64 = 1_000_000_000;

/// Rotates a mount offset by a canonical angle.
pub fn rotate(off: Point, a: i64) -> (r: Point)
    requires
        -OFFSET_LIMIT <= off.x <= OFFSET_LIMIT,
        -OFFSET_LIMIT <= off.y <= OFFSET_LIMIT,
        canonical(a as int),
    ensures
        r == rotated(off, a as int),
        -2 * OFFSET_LIMIT <= r.x <= 2 * OFFSET_LIMIT,
        -2 * OFFSET_LIMIT <= r.y <= 2 * OFFSET_LIMIT,
{
    let s: i128 = sin(a) as i128;
    let c: i128 = cos(a) as i128;
    let ox: i128 = off.x as i128;
    let oy: i128 = off.y as i128;
    assert(-1_000_000_000_000 <= ox * c <= 1_000_000_000_000) by (nonlinear_arith)
        requires
            -1_000_000_000 <= ox <= 1_000_000_000,
            -1000 <= c <= 1000,
    ;
    assert(-1_000_000_000_000 <= oy * s <= 1_000_000_000_000) by (nonlinear_arith)
        requires
            -1_000_000_000 <= oy <= 1_000_000_000,
            -1000 <= s <= 1000,
    ;
    assert(-1_000_000_000_000 <= ox * s <= 1_000_000_000_000) by (nonlinear_arith)
        requires
            -1_000_000_000 <= ox <= 1_000_000_000,
            -1000 <= s <= 1000,
    ;
    assert(-1_000_000_000_000 <= oy * c <= 1_000_000_000_000) by (nonlinear_arith)
        requires
            -1_000_000_000 <= oy <= 1_000_000_000,
            -1000 <= c <= 1000,
    ;
    let rx: i128 = div_trunc(ox * c - oy * s, 1000);
    let ry: i128 = div_trunc(ox * s + oy * c, 1000);
    Point { x: rx as i64, y: ry as i64 }
}

/// The angle of `n / d` for `0 <= n <= d`, by the approximation
/// `atan(z) ≈ π z / 4 + 0.273 z (1 - z)`, in microradians.
pub open spec fn atan_ratio(n: int, d: int) -> int {
    (PI_MICRO * n) / (4 * d) + (273_000 * (n * (d - n))) / (d * d)
}

/// The angle of the vector `(x, y)` from the `+x` axis, in `[-π, π]`;
/// zero for the zero vector.
pub open spec fn angle_of(x: int, y: int) -> int {
    if x == 0 && y == 0 {
        0
    } else {
        let ax = abs(x);
        let ay = abs(y);
        let t = if ay <= ax { atan_ratio(ay, ax) } else { HALF_PI_MICRO - atan_ratio(ax, ay) };
        let u = if x < 0 { PI_MICRO - t } else { t };
        if y < 0 { -u } else { u }
    }
}

/// The angle that turns a body to face along `d`, in the convention of
/// `heading` (zero faces `+y`).
pub open spec fn bearing_of(d: Dir) -> int {
    wrapped(angle_of(d.x as int, d.y as int) - HALF_PI_MICRO)
}

proof fn lemma_atan_ratio_bounds(n: int, d: int)
    requires
        0 <= n <= d,
        0 < d,
        d <= 1000,
    ensures
        0 <= atan_ratio(n, d) <= PI_MICRO,
{
    assert(0 <= PI_MICRO * n <= PI_MICRO * d) by (nonlinear_arith)
        requires
            0 <= n <= d,
    ;
    assert((PI_MICRO * n) / (4 * d) <= PI_MICRO / 4) by (nonlinear_arith)
        requires
            0 <= PI_MICRO * n <= PI_MICRO * d,
            0 < d,
    ;
    assert(0 <= (PI_MICRO * n) / (4 * d)) by (nonlinear_arith)
        requires
            0 <= PI_MICRO * n,
            0 < d,
    ;
    assert(0 <= n * (d - n) <= d * d) by (nonlinear_arith)
        requires
            0 <= n <= d,
    ;
    assert((273_000 * (n * (d - n))) / (d * d) <= 273_000) by (nonlinear_arith)
        requires
            0 <= n * (d - n) <= d * d,
            0 < d,
    ;
    assert(0 <= (273_000 * (n * (d - n))) / (d * d)) by (nonlinear_arith)
        requires
            0 <= n * (d - n),
            0 < d,
    ;
}

fn atan_of_ratio(n: i64, d: i64) -> (r: i64)
    requires
        0 <= n <= d,
        0 < d <= 1000,
    ensures
        r == atan_ratio(n as int, d as int),
        0 <= r <= PI_MICRO,
{
    proof {
        lemma_atan_ratio_bounds(n as int, d as int);
    }
    assert(0 <= n * (d - n) <= 1_000_000) by (nonlinear_arith)
        requires
            0 <= n <= d,
            d <= 1000,
    ;
    assert(0 < d * d <= 1_000_000) by (nonlinear_arith)
        requires
            0 < d <= 1000,
    ;
    let a: i64 = (PI_MICRO * n) / (4 * d);
    let b: i64 = (273_000 * (n * (d - n))) / (d * d);
    a + b
}

/// The angle that turns a body to face along a direction.
pub fn bearing(d: Dir) -> (r: i64)
    requires
        d.wf(),
    ensures
        r == bearing_of(d),
        canonical(r as int),
{
    let x = d.x;
    let y = d.y;
    if x == 0 && y == 0 {
        return wrap(-HALF_PI_MICRO);
    }
    let ax: i64 = if x < 0 { -x } else { x };
    let ay: i64 = if y < 0 { -y } else { y };
    let t: i64 = if ay <= ax { atan_of_ratio(ay, ax) } else { HALF_PI_MICRO - atan_of_ratio(ax, ay) };
    let u: i64 = if x < 0 { PI_MICRO - t } else { t };
    let v: i64 = if y < 0 { -u } else { u };
    wrap(v - HALF_PI_MICRO)
}

/// The largest turn a cannon may make in one step.
pub open spec fn max_turn(turn_rate: int, dt_ms: int) -> int {
    turn_rate * dt_ms / 1000
}

/// One step of rate-limited aiming: turn from `current` toward `target` the
/// shorter way round, by the whole remaining difference or by the largest
/// turn the rate allows, whichever is smaller.
pub open spec fn turned_toward(current: int, target: int, turn_rate: int, dt_ms: int) -> int {
    let delta = wrapped(target - current);
    let limit = max_turn(turn_rate, dt_ms);
    let step = if abs(delta) <= limit {
        delta
    } else if delta > 0 {
        limit
    } else {
        -limit
    };
    wrapped(current + step)
}

/// Turns a cannon toward a bearing at a bounded rate.
pub fn turn_toward(current: i64, target: i64, turn_rate: i64, dt_ms: u64) -> (r: i64)
    requires
        canonical(current as int),
        canonical(target as int),
        0 <= turn_rate <= MAX_TURN_RATE,
        dt_ms <= MAX_STEP_MS,
    ensures
        r == turned_toward(current as int, target as int, turn_rate as int, dt_ms as int),
        canonical(r as int),
{
    let delta = wrap(target - current);
    assert(0 <= turn_rate * dt_ms <= 1_000_000_000_000) by (nonlinear_arith)
        requires
            0 <= turn_rate <= 100_000_000,
            0 <= dt_ms <= 10_000,
    ;
    let limit: i64 = ((turn_rate as u64 * dt_ms) / 1000) as i64;
    let step: i64 = if (delta >= 0 && delta <= limit) || (delta < 0 && -delta <= limit) {
        delta
    } else if delta > 0 {
        limit
    } else {
        -limit
    };
    wrap(current + step)
}

} // verus!
