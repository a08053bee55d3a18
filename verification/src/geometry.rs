//! Positions, extents and the axis-aligned overlap test.
//!
//! Coordinates are fixed-point: one pixel is [`UNITS_PER_PIXEL`] units. The
//! origin is the bottom-left corner of the screen and `y` grows upwards. A
//! speed given in pixels per second moves an entity by `speed * dt` units in
//! `dt` milliseconds, so motion needs no division.

use vstd::prelude::*;

verus! {

/// Coordinate units in one pixel.
pub const UNITS_PER_PIXEL: i64 = 1000;

/// A point in world coordinates.
#[derive(Clone, Copy, Debug, PartialEq, Eq, Structural)]
pub struct Position {
    pub x: i64,
    pub y: i64,
}

/// Half extents of an axis-aligned box centred on an entity's position.
#[derive(Clone, Copy, Debug, PartialEq, Eq, Structural)]
pub struct BoundingBox {
    pub half_width: i64,
    pub half_height: i64,
}

/// The screen rectangle, fixed for a session.
#[derive(Clone, Copy, Debug, PartialEq, Eq, Structural)]
pub struct Bounds {
    pub width: u32,
    pub height: u32,
}

/// The nearest representable coordinate to `v`.
pub open spec fn saturate(v: int) -> int {
    if v < i64::MIN {
        i64::MIN as int
    } else if v > i64::MAX {
        i64::MAX as int
    } else {
        v
    }
}

/// Whether the closed intervals `[a - ha, a + ha]` and `[b - hb, b + hb]` meet.
pub open spec fn extents_intersect(a: int, ha: int, b: int, hb: int) -> bool {
    a - ha <= b + hb && b - hb <= a + ha
}

/// Two boxes overlap iff both their x-extents and their y-extents intersect.
pub open spec fn boxes_overlap(
    pa: Position,
    ba: BoundingBox,
    pb: Position,
    bb: BoundingBox,
) -> bool {
    extents_intersect(pa.x as int, ba.half_width as int, pb.x as int, bb.half_width as int)
        && extents_intersect(
        pa.y as int,
        ba.half_height as int,
        pb.y as int,
        bb.half_height as int,
    )
}

/// Brings a wide intermediate result back into the coordinate range.
pub fn clamp_coordinate(v: i128) -> (r: i64)
    ensures
        r as int == saturate(v as int),
{
    if v < i64::MIN as i128 {
        i64::MIN
    } else if v > i64::MAX as i128 {
        i64::MAX
    } else {
        v as i64
    }
}

/// Where a coordinate `v` is after `dt_ms` milliseconds at `speed` pixels
/// per second: motion stops at the ends of the coordinate range.
pub open spec fn advanced(v: i64, speed: int, dt_ms: u32) -> i64 {
    saturate(v + speed * dt_ms) as i64
}

/// Moves a coordinate for `dt_ms` milliseconds at `speed` pixels per second.
pub fn advance(v: i64, speed: i64, dt_ms: u32) -> (r: i64)
    ensures
        r == advanced(v, speed as int, dt_ms),
{
    assert(-0x8000_0000_0000_0000 * 0x1_0000_0000 <= speed * dt_ms <= 0x8000_0000_0000_0000
        * 0x1_0000_0000) by (nonlinear_arith)
        requires
            -0x8000_0000_0000_0000 <= speed < 0x8000_0000_0000_0000,
            0 <= dt_ms < 0x1_0000_0000,
    ;
    clamp_coordinate(v as i128 + (speed as i128) * (dt_ms as i128))
}

/// Moves a coordinate against the direction of `speed`.
pub fn retreat(v: i64, speed: i64, dt_ms: u32) -> (r: i64)
    ensures
        r == advanced(v, -(speed as int), dt_ms),
{
    assert(-0x8000_0000_0000_0000 * 0x1_0000_0000 <= speed * dt_ms <= 0x8000_0000_0000_0000
        * 0x1_0000_0000) by (nonlinear_arith)
        requires
            -0x8000_0000_0000_0000 <= speed < 0x8000_0000_0000_0000,
            0 <= dt_ms < 0x1_0000_0000,
    ;
    assert((-(speed as int)) * dt_ms == -(speed * dt_ms)) by (nonlinear_arith);
    clamp_coordinate(v as i128 - (speed as i128) * (dt_ms as i128))
}

impl Position {
    pub fn new(x: i64, y: i64) -> (r: Position)
        ensures
            r == (Position { x, y }),
    {
        Position { x, y }
    }
}

impl BoundingBox {
    pub fn new(half_width: i64, half_height: i64) -> (r: BoundingBox)
        ensures
            r == (BoundingBox { half_width, half_height }),
    {
        BoundingBox { half_width, half_height }
    }
}

impl Bounds {
    pub fn new(width: u32, height: u32) -> (r: Bounds)
        ensures
            r == (Bounds { width, height }),
    {
        Bounds { width, height }
    }
}

/// The axis-aligned overlap test.
pub fn overlaps(pa: Position, ba: BoundingBox, pb: Position, bb: BoundingBox) -> (r: bool)
    ensures
        r == boxes_overlap(pa, ba, pb, bb),
{
    let ax: i128 = pa.x as i128;
    let ay: i128 = pa.y as i128;
    let bx: i128 = pb.x as i128;
    let by: i128 = pb.y as i128;
    let aw: i128 = ba.half_width as i128;
    let ah: i128 = ba.half_height as i128;
    let bw: i128 = bb.half_width as i128;
    let bh: i128 = bb.half_height as i128;
    ax - aw <= bx + bw && bx - bw <= ax + aw && ay - ah <= by + bh && by - bh <= ay + ah
}

} // verus!
