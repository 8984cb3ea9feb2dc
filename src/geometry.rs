//! Positions, directions, window bounds, confinement and collision tests.
use vstd::prelude::*;

verus! {

/// Units of length per pixel.
pub const UNITS_PER_PIXEL: i64 = 1000;

/// Largest magnitude a coordinate may take; movement saturates there.
pub const POS_LIMIT: i64 = 1_099_511_627_776;

/// Length of a unit direction vector.
pub const DIRECTION_SCALE: i64 = 1000;

/// Nanoseconds per second.
pub const NANOS_PER_SECOND: i64 = 1_000_000_000;

/// A point of the playfield.
#[derive(Clone, Copy, Debug, PartialEq, Eq, Structural)]
pub struct Position {
    pub x: i64,
    pub y: i64,
}

/// A direction whose components are thousandths: a unit vector has length
/// `DIRECTION_SCALE`, up to rounding down.
#[derive(Clone, Copy, Debug, PartialEq, Eq, Structural)]
pub struct Direction {
    pub x: i64,
    pub y: i64,
}

/// Size of the playfield (the window), in units.
#[derive(Clone, Copy, Debug, PartialEq, Eq, Structural)]
pub struct Playfield {
    pub width: i64,
    pub height: i64,
}

/// The box that keeps an entity of a given size inside the playfield.
#[derive(Clone, Copy, Debug, PartialEq, Eq, Structural)]
pub struct Bounds {
    pub x_min: i64,
    pub x_max: i64,
    pub y_min: i64,
    pub y_max: i64,
}

pub open spec fn abs(v: int) -> int {
    if v < 0 { -v } else { v }
}

impl Position {
    pub open spec fn wf(self) -> bool {
        abs(self.x as int) <= POS_LIMIT && abs(self.y as int) <= POS_LIMIT
    }
}

impl Direction {
    pub open spec fn wf(self) -> bool {
        abs(self.x as int) <= DIRECTION_SCALE && abs(self.y as int) <= DIRECTION_SCALE
    }
}

impl Playfield {
    pub open spec fn wf(self) -> bool {
        0 <= self.width <= POS_LIMIT && 0 <= self.height <= POS_LIMIT
    }
}

/// `v` brought into `[lo, hi]`: below `lo` gives `lo`, else above `hi` gives `hi`.
pub open spec fn clamp_spec(v: int, lo: int, hi: int) -> int {
    if v < lo {
        lo
    } else if v > hi {
        hi
    } else {
        v
    }
}

/// The confinement box of an entity of width `size` in `field`.
pub open spec fn bounds_spec(field: Playfield, size: int) -> (int, int, int, int) {
    (size / 2, field.width - size / 2, size / 2, field.height - size / 2)
}

/// Squared Euclidean distance between two positions.
pub open spec fn dist_sq(a: Position, b: Position) -> int {
    (a.x - b.x) * (a.x - b.x) + (a.y - b.y) * (a.y - b.y)
}

/// Two entities touch when their distance is below `reach` (the sum of their radii).
pub open spec fn touching_spec(a: Position, b: Position, reach: int) -> bool {
    dist_sq(a, b) < reach * reach
}

/// `r` is the integer square root of `n`.
pub open spec fn is_root(n: int, r: int) -> bool {
    0 <= r && r * r <= n < (r + 1) * (r + 1)
}

/// Division that rounds toward zero, as Rust's integer division does.
pub open spec fn div_trunc(a: int, b: int) -> int {
    if a >= 0 { a / b } else { -((-a) / b) }
}

/// The unit direction of `(x, y)`: each component scaled by
/// `DIRECTION_SCALE / len`, where `len` is the integer square root of the
/// squared length; the zero vector stays zero.
pub open spec fn unit_spec(x: int, y: int, len: int) -> Direction {
    if len == 0 {
        Direction { x: 0, y: 0 }
    } else {
        Direction {
            x: div_trunc(x * DIRECTION_SCALE, len) as i64,
            y: div_trunc(y * DIRECTION_SCALE, len) as i64,
        }
    }
}

/// How far an entity moving at `speed` pixels per second along `d` goes in
/// `dt` nanoseconds, in units, on one axis.
pub open spec fn displacement(d: int, speed: int, dt: int) -> int {
    div_trunc(d * speed * dt, NANOS_PER_SECOND as int)
}

/// One coordinate after a move, saturated at `POS_LIMIT`.
pub open spec fn advance_axis(p: int, d: int, speed: int, dt: int) -> int {
    clamp_spec(p + displacement(d, speed, dt), -POS_LIMIT, POS_LIMIT as int)
}

pub open spec fn advance_spec(p: Position, d: Direction, speed: int, dt: int) -> Position {
    Position {
        x: advance_axis(p.x as int, d.x as int, speed, dt) as i64,
        y: advance_axis(p.y as int, d.y as int, speed, dt) as i64,
    }
}

/// The box that keeps an entity of width `size` inside the window.
pub fn get_bounds(field: &Playfield, size: i64) -> (r: Bounds)
    requires
        field.wf(),
        0 <= size <= POS_LIMIT,
    ensures
        (r.x_min as int, r.x_max as int, r.y_min as int, r.y_max as int)
            == bounds_spec(*field, size as int),
{
    let half = size / 2;
    Bounds { x_min: half, x_max: field.width - half, y_min: half, y_max: field.height - half }
}

/// Brings a position back inside a box, one axis at a time.
pub fn confine(p: Position, b: &Bounds) -> (r: Position)
    ensures
        r.x == clamp_spec(p.x as int, b.x_min as int, b.x_max as int),
        r.y == clamp_spec(p.y as int, b.y_min as int, b.y_max as int),
{
    let mut q = p;
    if q.x < b.x_min {
        q.x = b.x_min;
    } else if q.x > b.x_max {
        q.x = b.x_max;
    }
    if q.y < b.y_min {
        q.y = b.y_min;
    } else if q.y > b.y_max {
        q.y = b.y_max;
    }
    q
}

/// A confined position lies inside the confinement box whenever the entity
/// fits in the window: each coordinate ends within `[size/2, dimension - size/2]`.
pub proof fn lemma_confined_within_bounds(field: Playfield, size: int, p: Position)
    requires
        field.wf(),
        0 <= size <= field.width,
        size <= field.height,
    ensures
        ({
            let (x_min, x_max, y_min, y_max) = bounds_spec(field, size);
            &&& x_min <= clamp_spec(p.x as int, x_min, x_max) <= x_max
            &&& y_min <= clamp_spec(p.y as int, y_min, y_max) <= y_max
            &&& x_min == size / 2 && x_max == field.width - size / 2
            &&& y_min == size / 2 && y_max == field.height - size / 2
        }),
{
}

/// Whether two entities, whose radii sum to `reach`, collide.
pub fn touching(a: Position, b: Position, reach: i64) -> (r: bool)
    requires
        a.wf(),
        b.wf(),
        0 <= reach <= POS_LIMIT,
    ensures
        r == touching_spec(a, b, reach as int),
{
    let dx = a.x as i128 - b.x as i128;
    let dy = a.y as i128 - b.y as i128;
    assert(dx * dx <= 4 * POS_LIMIT * POS_LIMIT) by (nonlinear_arith)
        requires
            -2 * POS_LIMIT <= dx <= 2 * POS_LIMIT,
    ;
    assert(dy * dy <= 4 * POS_LIMIT * POS_LIMIT) by (nonlinear_arith)
        requires
            -2 * POS_LIMIT <= dy <= 2 * POS_LIMIT,
    ;
    assert(reach * reach <= POS_LIMIT * POS_LIMIT) by (nonlinear_arith)
        requires
            0 <= reach <= POS_LIMIT,
    ;
    assert(dx * dx >= 0 && dy * dy >= 0 && reach * reach >= 0) by (nonlinear_arith);
    let r2 = reach as i128 * reach as i128;
    dx * dx + dy * dy < r2
}

/// Integer square root.
fn isqrt(n: u64) -> (r: u64)
    requires
        n <= 2_000_000,
    ensures
        is_root(n as int, r as int),
{
    let mut r: u64 = 0;
    loop
        invariant
            n <= 2_000_000,
            r <= 1415,
            r * r <= n,
        decreases 1415 - r,
    {
        assert((r + 1) * (r + 1) <= 1416 * 1416) by (nonlinear_arith)
            requires
                r <= 1415,
        ;
        if (r + 1) * (r + 1) > n {
            return r;
        }
        assert(r + 1 < 1415) by (nonlinear_arith)
            requires
                (r + 1) * (r + 1) <= n,
                n <= 2_000_000,
        ;
        r = r + 1;
    }
}

proof fn lemma_component_le_root(a: int, n: int, len: int)
    requires
        0 <= a,
        a * a <= n,
        is_root(n, len),
    ensures
        a <= len,
        n <= 2_000_000 ==> len <= 1415,
{
    if n <= 2_000_000 && len > 1415 {
        assert(len * len > 2_000_000) by (nonlinear_arith)
            requires
                len > 1415,
        ;
    }
    if a > len {
        assert((len + 1) * (len + 1) <= a * a) by (nonlinear_arith)
            requires
                a >= len + 1,
                len >= 0,
        ;
    }
}

/// Scales one non-negative component `a <= len` to thousandths of `len`.
fn scale_component(neg: bool, a: i64, len: i64) -> (r: i64)
    requires
        0 <= a <= len,
        0 < len <= 1415,
    ensures
        r == div_trunc((if neg { -a } else { a as int }) * DIRECTION_SCALE, len as int),
        abs(r as int) <= DIRECTION_SCALE,
{
    let m = a * 1000 / len;
    assert((a as int) * 1000 / (len as int) <= 1000) by (nonlinear_arith)
        requires
            0 <= a <= len,
            0 < len,
    ;
    assert(a * 1000 >= 0) by (nonlinear_arith)
        requires
            0 <= a,
    ;
    if neg {
        assert((-a) * 1000 == -(a * 1000)) by (nonlinear_arith);
        -m
    } else {
        m
    }
}

/// The unit direction of `(x, y)`, in thousandths; `(0, 0)` stays `(0, 0)`.
pub fn unit_direction(x: i64, y: i64) -> (r: Direction)
    requires
        abs(x as int) <= DIRECTION_SCALE,
        abs(y as int) <= DIRECTION_SCALE,
    ensures
        exists|len: int| is_root(x * x + y * y, len) && r == unit_spec(x as int, y as int, len),
        r.wf(),
{
    let ax: i64 = if x < 0 { -x } else { x };
    let ay: i64 = if y < 0 { -y } else { y };
    assert(ax * ax <= 1_000_000 && ay * ay <= 1_000_000) by (nonlinear_arith)
        requires
            0 <= ax <= 1000,
            0 <= ay <= 1000,
    ;
    assert(ax * ax == x * x && ay * ay == y * y) by (nonlinear_arith)
        requires
            ax == abs(x as int),
            ay == abs(y as int),
    ;
    let n = (ax * ax + ay * ay) as u64;
    let len = isqrt(n);
    if len == 0 {
        assert(ax * ax >= ax && ay * ay >= ay) by (nonlinear_arith)
            requires
                0 <= ax,
                0 <= ay,
        ;
        let r = Direction { x: 0, y: 0 };
        assert(is_root(x * x + y * y, len as int) && r == unit_spec(x as int, y as int, len as int));
        r
    } else {
        assert(ay * ay >= 0 && ax * ax >= 0) by (nonlinear_arith);
        proof {
            lemma_component_le_root(ax as int, n as int, len as int);
            lemma_component_le_root(ay as int, n as int, len as int);
        }
        let ux = scale_component(x < 0, ax, len as i64);
        let uy = scale_component(y < 0, ay, len as i64);
        let r = Direction { x: ux, y: uy };
        assert(is_root(x * x + y * y, len as int) && r == unit_spec(x as int, y as int, len as int));
        r
    }
}

/// Moves `p` along `d` at `speed` pixels per second for `dt` nanoseconds,
/// saturating each coordinate at `POS_LIMIT`.
pub fn advance(p: Position, d: Direction, speed: i64, dt: u64) -> (r: Position)
    requires
        p.wf(),
        d.wf(),
        0 <= speed <= 1_000_000,
    ensures
        r == advance_spec(p, d, speed as int, dt as int),
        r.wf(),
{
    Position { x: advance_coord(p.x, d.x, speed, dt), y: advance_coord(p.y, d.y, speed, dt) }
}

fn advance_coord(p: i64, d: i64, speed: i64, dt: u64) -> (r: i64)
    requires
        abs(p as int) <= POS_LIMIT,
        abs(d as int) <= DIRECTION_SCALE,
        0 <= speed <= 1_000_000,
    ensures
        r == advance_axis(p as int, d as int, speed as int, dt as int),
        abs(r as int) <= POS_LIMIT,
{
    let ad: i128 = if d < 0 { -(d as i128) } else { d as i128 };
    // thousandths of a pixel-per-second times nanoseconds: units times 1e9
    assert(ad * speed <= 1_000_000_000) by (nonlinear_arith)
        requires
            0 <= ad <= 1000,
            0 <= speed <= 1_000_000,
    ;
    assert(ad * speed * dt <= 1_000_000_000 * 18_446_744_073_709_551_615) by (nonlinear_arith)
        requires
            0 <= ad * speed <= 1_000_000_000,
            0 <= dt <= 18_446_744_073_709_551_615,
    ;
    assert(ad * speed * dt >= 0) by (nonlinear_arith)
        requires
            0 <= ad,
            0 <= speed,
            0 <= dt,
    ;
    let mag: i128 = ad * speed as i128 * dt as i128 / 1_000_000_000;
    assert(d < 0 ==> d * speed * dt == -(ad * speed * dt)) by (nonlinear_arith)
        requires
            d < 0 ==> ad == -d,
    ;
    assert(d >= 0 ==> d * speed * dt == ad * speed * dt);
    let disp: i128 = if d < 0 { -mag } else { mag };
    let n: i128 = p as i128 + disp;
    if n < -(POS_LIMIT as i128) {
        -POS_LIMIT
    } else if n > POS_LIMIT as i128 {
        POS_LIMIT
    } else {
        n as i64
    }
}

} // verus!
