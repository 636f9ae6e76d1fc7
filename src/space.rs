//! The plane, its fixed-point positions, and its square chunks.
use vstd::prelude::*;

verus! {

/// Fixed-point units in one world length.
pub const UNIT: i64 = 1_000_000;

/// Side length of a chunk: two world lengths.
pub const CHUNK_SIZE: i64 = 2 * UNIT;

/// Chebyshev radius, in chunks, of the neighbourhood kept around each observer.
pub const CHUNK_PLAYER_DIST: i64 = 6;

/// Signed distance past which an asteroid is retired: six chunks.
pub const ASTEROID_DESPAWN_DIST: i64 = CHUNK_PLAYER_DIST * CHUNK_SIZE;

/// A point (or a displacement) of the plane, in fixed-point units.
#[derive(Clone, Copy, Debug, PartialEq, Eq, Structural)]
pub struct Point {
    pub x: i64,
    pub y: i64,
}

/// The chunk that holds a coordinate: floor division by the chunk size.
pub open spec fn chunk_axis(v: int) -> int {
    v / (CHUNK_SIZE as int)
}

/// The chunk coordinate of a position.
pub open spec fn chunk_of(p: Point) -> (i64, i64) {
    (chunk_axis(p.x as int) as i64, chunk_axis(p.y as int) as i64)
}

/// A position lies inside the square of chunk `c`, lower edges included.
pub open spec fn in_chunk(p: Point, c: (i64, i64)) -> bool {
    &&& c.0 * CHUNK_SIZE <= p.x < c.0 * CHUNK_SIZE + CHUNK_SIZE
    &&& c.1 * CHUNK_SIZE <= p.y < c.1 * CHUNK_SIZE + CHUNK_SIZE
}

fn chunk_axis_of(v: i64) -> (r: i64)
    ensures
        r == chunk_axis(v as int),
        r as int == chunk_axis(v as int),
{
    proof {
        lemma_chunk_axis_bounds(v);
    }
    match v.checked_div_euclid(CHUNK_SIZE) {
        Some(q) => q,
        None => 0,
    }
}

/// The chunk coordinate of a position (floor of the position over the chunk size).
pub fn chunk_pos_from_pos(pos: Point) -> (r: (i64, i64))
    ensures
        r == chunk_of(pos),
{
    (chunk_axis_of(pos.x), chunk_axis_of(pos.y))
}

/// The chunk of a coordinate is itself a coordinate of the plane.
pub proof fn lemma_chunk_axis_bounds(v: i64)
    ensures
        -4_611_686_018_428 <= chunk_axis(v as int) <= 4_611_686_018_427,
{
    let s = CHUNK_SIZE as int;
    assert(-4_611_686_018_428 <= (v as int) / s <= 4_611_686_018_427) by (nonlinear_arith)
        requires
            s == 2_000_000,
            -0x8000_0000_0000_0000 <= v < 0x8000_0000_0000_0000,
    ;
}

/// A position lies in chunk `c` exactly when floor division sends it there.
pub proof fn lemma_in_chunk_iff_chunk_of(p: Point, c: (i64, i64))
    ensures
        in_chunk(p, c) <==> chunk_of(p) == c,
{
    let s = CHUNK_SIZE as int;
    lemma_chunk_axis_bounds(p.x);
    lemma_chunk_axis_bounds(p.y);
    let qx = (p.x as int) / s;
    let qy = (p.y as int) / s;
    assert(in_chunk(p, c) <==> (qx == c.0 && qy == c.1)) by (nonlinear_arith)
        requires
            s == 2_000_000,
            qx == (p.x as int) / s,
            qy == (p.y as int) / s,
            in_chunk(p, c) <==> (c.0 * s <= p.x < c.0 * s + s && c.1 * s <= p.y < c.1 * s + s),
    ;
}

} // verus!
