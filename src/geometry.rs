use vstd::prelude::*;

verus! {

/// Fixed-point scale: coordinates, sizes and direction components count
/// thousandths of a world unit.
pub const UNIT: i64 = 1000;

/// Largest magnitude a coordinate may take, in thousandths of a world unit.
pub const COORD_LIMIT: i64 = 1_000_000_000_000;

/// Largest speed, in world units per second.
pub const MAX_SPEED: i64 = 10_000;

/// Longest simulation step, in milliseconds.
pub const MAX_STEP_MS: u64 = 10_000;

/// A position in the plane, in thousandths of a world unit.
#[derive(Clone, Copy, Debug, PartialEq, Eq, Structural)]
pub struct Point {
    pub x: i64,
    pub y: i64,
}

/// Width and height of an axis-aligned box, in thousandths of a world unit.
#[derive(Clone, Copy, Debug, PartialEq, Eq, Structural)]
pub struct Size {
    pub w: i64,
    pub h: i64,
}

/// A direction whose components are scaled by `UNIT` (a unit vector has length about `UNIT`).
#[derive(Clone, Copy, Debug, PartialEq, Eq, Structural)]
pub struct Dir {
    pub x: i64,
    pub y: i64,
}

impl Point {
    pub open spec fn bounded(self) -> bool {
        -COORD_LIMIT <= self.x <= COORD_LIMIT && -COORD_LIMIT <= self.y <= COORD_LIMIT
    }

    pub fn new(x: i64, y: i64) -> (r: Point)
        ensures
            r.x == x,
            r.y == y,
    {
        Point { x, y }
    }
}

impl Size {
    pub open spec fn wf(self) -> bool {
        0 <= self.w <= COORD_LIMIT && 0 <= self.h <= COORD_LIMIT
    }

    pub fn new(w: i64, h: i64) -> (r: Size)
        ensures
            r.w == w,
            r.h == h,
    {
        Size { w, h }
    }
}

impl Dir {
    pub open spec fn wf(self) -> bool {
        -UNIT <= self.x <= UNIT && -UNIT <= self.y <= UNIT
    }
}

pub open spec fn abs(v: int) -> int {
    if v < 0 {
        -v
    } else {
        v
    }
}

/// Division that rounds toward zero, as integer division of Rust does.
pub open spec fn div_toward_zero(a: int, b: int) -> int {
    if a >= 0 {
        a / b
    } else {
        -((-a) / b)
    }
}

/// `v` limited to `[-COORD_LIMIT, COORD_LIMIT]`.
pub open spec fn clamp_coord(v: int) -> int {
    if v < -COORD_LIMIT {
        -COORD_LIMIT as int
    } else if v > COORD_LIMIT {
        COORD_LIMIT as int
    } else {
        v
    }
}

/// Two boxes centred at `a` and `b` intersect; boxes that only touch along an
/// edge do not. Boxes are never rotated.
pub open spec fn overlaps(a: Point, sa: Size, b: Point, sb: Size) -> bool {
    2 * abs(a.x - b.x) < sa.w + sb.w && 2 * abs(a.y - b.y) < sa.h + sb.h
}

/// Tests two axis-aligned boxes for intersection.
pub fn collide(a: Point, sa: Size, b: Point, sb: Size) -> (r: bool)
    requires
        a.bounded(),
        b.bounded(),
        sa.wf(),
        sb.wf(),
    ensures
        r == overlaps(a, sa, b, sb),
{
    let dx: i64 = if a.x >= b.x { a.x - b.x } else { b.x - a.x };
    let dy: i64 = if a.y >= b.y { a.y - b.y } else { b.y - a.y };
    2 * dx < sa.w + sb.w && 2 * dy < sa.h + sb.h
}

/// Integer division rounding toward zero, for a positive divisor.
pub fn div_trunc(a: i128, b: i128) -> (r: i128)
    requires
        b > 0,
        a > i128::MIN,
    ensures
        r == div_toward_zero(a as int, b as int),
{
    if a >= 0 {
        a / b
    } else {
        -((-a) / b)
    }
}

/// Limits a coordinate to `[-COORD_LIMIT, COORD_LIMIT]`.
pub fn clamp(v: i128) -> (r: i64)
    ensures
        r == clamp_coord(v as int),
{
    if v < -(COORD_LIMIT as i128) {
        -COORD_LIMIT
    } else if v > COORD_LIMIT as i128 {
        COORD_LIMIT
    } else {
        v as i64
    }
}

/// `r` is the integer square root of `n`.
pub open spec fn is_root(n: int, r: int) -> bool {
    0 <= r && r * r <= n < (r + 1) * (r + 1)
}

proof fn lemma_root_unique(n: int, r1: int, r2: int)
    requires
        is_root(n, r1),
        is_root(n, r2),
    ensures
        r1 == r2,
{
    if r1 < r2 {
        assert((r1 + 1) * (r1 + 1) <= r2 * r2) by (nonlinear_arith)
            requires
                0 <= r1,
                r1 + 1 <= r2,
        ;
    } else if r2 < r1 {
        assert((r2 + 1) * (r2 + 1) <= r1 * r1) by (nonlinear_arith)
            requires
                0 <= r2,
                r2 + 1 <= r1,
        ;
    }
}

/// The integer square root of a natural number.
pub open spec fn root(n: int) -> int {
    choose|r: int| is_root(n, r)
}

/// Integer square root by bisection.
pub fn isqrt(n: u128) -> (r: u128)
    requires
        n < 0x1_0000_0000_0000_0000_0000_0000_0000,
    ensures
        is_root(n as int, r as int),
        r as int == root(n as int),
        r < 0x1_0000_0000_0000_0000,
{
    let mut lo: u128 = 0;
    let mut hi: u128 = 0x1_0000_0000_0000_0000;
    assert(hi * hi > n) by (nonlinear_arith)
        requires
            hi == 0x1_0000_0000_0000_0000u128,
            n < 0x1_0000_0000_0000_0000_0000_0000_0000,
    ;
    while hi - lo > 1
        invariant
            lo < hi <= 0x1_0000_0000_0000_0000,
            lo * lo <= n,
            n < hi * hi,
        decreases hi - lo,
    {
        let mid: u128 = lo + (hi - lo) / 2;
        assert(mid < hi);
        assert(mid * mid <= 0xFFFF_FFFF_FFFF_FFFE_0000_0000_0000_0001) by (nonlinear_arith)
            requires
                mid <= 0xFFFF_FFFF_FFFF_FFFF,
        ;
        if mid * mid <= n {
            lo = mid;
        } else {
            hi = mid;
        }
    }
    assert(is_root(n as int, lo as int));
    proof {
        let c = root(n as int);
        assert(is_root(n as int, c));
        lemma_root_unique(n as int, c, lo as int);
    }
    lo
}

/// The direction of `(x, y)` scaled to length `UNIT` and rounded toward zero;
/// the zero vector for a zero input.
pub open spec fn normalized(x: int, y: int) -> Dir {
    let len = root(x * x + y * y);
    if len == 0 {
        Dir { x: 0, y: 0 }
    } else {
        Dir {
            x: div_toward_zero(x * UNIT, len) as i64,
            y: div_toward_zero(y * UNIT, len) as i64,
        }
    }
}

proof fn lemma_component_le_root(x: int, y: int, len: int)
    requires
        is_root(x * x + y * y, len),
    ensures
        abs(x) <= len,
{
    assert(x * x <= x * x + y * y) by (nonlinear_arith);
    if abs(x) > len {
        assert((len + 1) * (len + 1) <= abs(x) * abs(x)) by (nonlinear_arith)
            requires
                0 <= len,
                len + 1 <= abs(x),
        ;
        assert(abs(x) * abs(x) == x * x) by (nonlinear_arith);
    }
}

proof fn lemma_scaled_bound(a: int, len: int)
    requires
        0 < len,
        abs(a) <= len,
    ensures
        -UNIT <= div_toward_zero(a * UNIT, len) <= UNIT,
{
    if a >= 0 {
        assert(a * UNIT <= len * UNIT) by (nonlinear_arith)
            requires
                0 <= a <= len,
        ;
        assert(a * UNIT / len <= len * UNIT / len) by (nonlinear_arith)
            requires
                0 <= a * UNIT <= len * UNIT,
                0 < len,
        ;
        assert(len * UNIT / len == UNIT) by (nonlinear_arith)
            requires
                0 < len,
        ;
        assert(0 <= a * UNIT / len) by (nonlinear_arith)
            requires
                0 <= a,
                0 < len,
        ;
    } else {
        assert((-a) * UNIT <= len * UNIT) by (nonlinear_arith)
            requires
                0 <= -a <= len,
        ;
        assert((-a) * UNIT / len <= len * UNIT / len) by (nonlinear_arith)
            requires
                0 <= (-a) * UNIT <= len * UNIT,
                0 < len,
        ;
        assert(len * UNIT / len == UNIT) by (nonlinear_arith)
            requires
                0 < len,
        ;
        assert(0 <= (-a) * UNIT / len) by (nonlinear_arith)
            requires
                0 <= -a,
                0 < len,
        ;
        assert(-(a * UNIT) == (-a) * UNIT) by (nonlinear_arith);
    }
}

/// Scales `(x, y)` to a direction of length about `UNIT`.
pub fn normalize(x: i64, y: i64) -> (r: Dir)
    requires
        -4 * COORD_LIMIT <= x <= 4 * COORD_LIMIT,
        -4 * COORD_LIMIT <= y <= 4 * COORD_LIMIT,
    ensures
        r == normalized(x as int, y as int),
        r.wf(),
{
    let xx: i128 = x as i128;
    let yy: i128 = y as i128;
    assert(xx * xx <= 16 * COORD_LIMIT * COORD_LIMIT) by (nonlinear_arith)
        requires
            -4 * COORD_LIMIT <= xx <= 4 * COORD_LIMIT,
    ;
    assert(yy * yy <= 16 * COORD_LIMIT * COORD_LIMIT) by (nonlinear_arith)
        requires
            -4 * COORD_LIMIT <= yy <= 4 * COORD_LIMIT,
    ;
    assert(0 <= xx * xx && 0 <= yy * yy) by (nonlinear_arith);
    let sq: i128 = xx * xx + yy * yy;
    let len: u128 = isqrt(sq as u128);
    if len == 0 {
        Dir { x: 0, y: 0 }
    } else {
        proof {
            lemma_component_le_root(x as int, y as int, len as int);
            lemma_component_le_root(y as int, x as int, len as int);
            assert(y * y + x * x == x * x + y * y);
            lemma_scaled_bound(x as int, len as int);
            lemma_scaled_bound(y as int, len as int);
        }
        let l: i128 = len as i128;
        let rx: i128 = div_trunc(xx * 1000, l);
        let ry: i128 = div_trunc(yy * 1000, l);
        Dir { x: rx as i64, y: ry as i64 }
    }
}

/// Where a body moving along `dir` at `speed` world units per second stands
/// after `dt_ms` milliseconds, limited to the coordinate range.
pub open spec fn advanced(pos: Point, dir: Dir, speed: int, dt_ms: int) -> Point {
    Point {
        x: clamp_coord(pos.x + div_toward_zero(dir.x * speed * dt_ms, UNIT as int)) as i64,
        y: clamp_coord(pos.y + div_toward_zero(dir.y * speed * dt_ms, UNIT as int)) as i64,
    }
}

proof fn lemma_product_bound(d: int, s: int, t: int)
    requires
        -UNIT <= d <= UNIT,
        0 <= s <= MAX_SPEED,
        0 <= t <= MAX_STEP_MS,
    ensures
        -100_000_000_000 <= d * s * t <= 100_000_000_000,
{
    assert(-100_000_000_000 <= d * s * t <= 100_000_000_000) by (nonlinear_arith)
        requires
            -1000 <= d <= 1000,
            0 <= s <= 10_000,
            0 <= t <= 10_000,
    ;
}

/// Moves a position along a direction for one step.
pub fn advance(pos: Point, dir: Dir, speed: i64, dt_ms: u64) -> (r: Point)
    requires
        pos.bounded(),
        dir.wf(),
        0 <= speed <= MAX_SPEED,
        dt_ms <= MAX_STEP_MS,
    ensures
        r == advanced(pos, dir, speed as int, dt_ms as int),
        r.bounded(),
{
    proof {
        lemma_product_bound(dir.x as int, speed as int, dt_ms as int);
        lemma_product_bound(dir.y as int, speed as int, dt_ms as int);
    }
    let t: i128 = dt_ms as i128;
    let s: i128 = speed as i128;
    assert(-10_000_000 <= (dir.x as i128) * s <= 10_000_000) by (nonlinear_arith)
        requires
            -1000 <= dir.x <= 1000,
            0 <= s <= 10_000,
    ;
    assert(-10_000_000 <= (dir.y as i128) * s <= 10_000_000) by (nonlinear_arith)
        requires
            -1000 <= dir.y <= 1000,
            0 <= s <= 10_000,
    ;
    let mx: i128 = (dir.x as i128) * s * t;
    let my: i128 = (dir.y as i128) * s * t;
    let dx: i128 = div_trunc(mx, 1000);
    let dy: i128 = div_trunc(my, 1000);
    Point { x: clamp(pos.x as i128 + dx), y: clamp(pos.y as i128 + dy) }
}

} // verus!
