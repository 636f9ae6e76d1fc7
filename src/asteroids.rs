//! Asteroids: how many a chunk holds, how they are made, and how they move.
use vstd::prelude::*;
use rand::Rng;
use crate::space::{Point, CHUNK_SIZE, in_chunk};

verus! {

/// Fixed-point units in one radian.
pub const ROT_UNIT: i64 = 1_000_000;

/// Half a turn, in rotation units: rotations are drawn from `[-ROT_PI, ROT_PI)`.
pub const ROT_PI: i64 = 3_141_593;

/// Microseconds in one second: elapsed times are given in microseconds.
pub const MICROS_PER_SECOND: i64 = 1_000_000;

/// The extreme of what the random speed of an asteroid can be, per second: a tenth
/// of a world length.
pub const AST_SPEED_MAX: i64 = 100_000;

/// The extreme of what the random speed of rotation of an asteroid can be, per second.
pub const AST_ROT_SPEED_MAX: i64 = ROT_UNIT;

/// A piece of world content: it drifts and spins, and is drawn with one of the
/// asteroid images.
#[derive(Clone, Copy, Debug, PartialEq, Eq, Structural)]
pub struct Asteroid {
    /// Position on the plane.
    pub pos: Point,
    /// Displacement per second.
    pub vel: Point,
    /// Change of rotation per second, in rotation units.
    pub rot_speed: i64,
    /// Rotation, in rotation units; not normalized.
    pub rot: i64,
    /// Which asteroid image it is drawn with.
    pub img_idx: i32,
    /// When it was made, in milliseconds of the host's clock.
    pub spawn_time: u64,
}

/// An integer pulled back into the range of `i64`.
pub open spec fn clamp_i64(v: int) -> i64 {
    if v < i64::MIN {
        i64::MIN
    } else if v > i64::MAX {
        i64::MAX
    } else {
        v as i64
    }
}

/// A coordinate after moving at `speed` per second for `dt` microseconds
/// (explicit Euler step, rounded down, held at the bounds of the plane).
pub open spec fn drift(coord: i64, speed: i64, dt: u64) -> i64 {
    clamp_i64(coord + (speed * dt) / (MICROS_PER_SECOND as int))
}

/// An asteroid after `dt` microseconds: position and rotation advanced, the rest kept.
pub open spec fn advanced(a: Asteroid, dt: u64) -> Asteroid {
    Asteroid {
        pos: Point { x: drift(a.pos.x, a.vel.x, dt), y: drift(a.pos.y, a.vel.y, dt) },
        rot: drift(a.rot, a.rot_speed, dt),
        ..a
    }
}

/// The base corner of a chunk and its far edge are positions of the plane.
pub open spec fn chunk_in_plane(c: (i64, i64)) -> bool {
    &&& i64::MIN <= c.0 * CHUNK_SIZE
    &&& c.0 * CHUNK_SIZE + CHUNK_SIZE - 1 <= i64::MAX
    &&& i64::MIN <= c.1 * CHUNK_SIZE
    &&& c.1 * CHUNK_SIZE + CHUNK_SIZE - 1 <= i64::MAX
}

/// What holds of every asteroid freshly made for chunk `c`.
pub open spec fn fresh_in_chunk(a: Asteroid, c: (i64, i64), n_ast_img: i32, time: u64) -> bool {
    &&& in_chunk(a.pos, c)
    &&& -AST_SPEED_MAX <= a.vel.x < AST_SPEED_MAX
    &&& -AST_SPEED_MAX <= a.vel.y < AST_SPEED_MAX
    &&& -AST_ROT_SPEED_MAX <= a.rot_speed < AST_ROT_SPEED_MAX
    &&& -ROT_PI <= a.rot < ROT_PI
    &&& 0 <= a.img_idx < n_ast_img
    &&& a.spawn_time == time
}

/// Relies on rand's `thread_rng` and `Rng::gen_range`: a value drawn from the
/// half-open range `[lo, hi)`, which must not be empty (it panics on an empty one).
#[verifier::external_body]
fn random_in(lo: i64, hi: i64) -> (r: i64)
    requires
        lo < hi,
    ensures
        lo <= r < hi,
{
    rand::thread_rng().gen_range(lo..hi)
}

fn drift_of(coord: i64, speed: i64, dt: u64) -> (r: i64)
    ensures
        r == drift(coord, speed, dt),
{
    assert(-0x8000_0000_0000_0000_0000_0000_0000_0000 < speed * dt < 0x8000_0000_0000_0000_0000_0000_0000_0000) by (nonlinear_arith)
        requires
            -0x8000_0000_0000_0000 <= speed < 0x8000_0000_0000_0000,
            0 <= dt < 0x1_0000_0000_0000_0000,
    ;
    let step = (speed as i128) * (dt as i128);
    let moved = match step.checked_div_euclid(MICROS_PER_SECOND as i128) {
        Some(q) => q,
        None => 0,
    };
    assert(-0x8000_0000_0000_0000_0000_0000_0000 < moved < 0x8000_0000_0000_0000_0000_0000_0000) by (nonlinear_arith)
        requires
            moved == step / 1_000_000,
            -0x8000_0000_0000_0000_0000_0000_0000_0000 < step < 0x8000_0000_0000_0000_0000_0000_0000_0000,
    ;
    let sum = coord as i128 + moved;
    if sum < i64::MIN as i128 {
        i64::MIN
    } else if sum > i64::MAX as i128 {
        i64::MAX
    } else {
        sum as i64
    }
}

/// Moves every asteroid by its velocity and turns it by its rotation speed, over
/// `delta_t` microseconds.
pub fn update_asteroids(asteroids: &mut Vec<Asteroid>, delta_t: u64)
    ensures
        final(asteroids)@.len() == old(asteroids)@.len(),
        forall|i: int|
            0 <= i < old(asteroids)@.len() ==> #[trigger] final(asteroids)@[i] == advanced(
                old(asteroids)@[i],
                delta_t,
            ),
{
    let ghost start = asteroids@;
    let mut i: usize = 0;
    while i < asteroids.len()
        invariant
            asteroids@.len() == start.len(),
            i <= start.len(),
            forall|k: int| 0 <= k < i ==> #[trigger] asteroids@[k] == advanced(start[k], delta_t),
            forall|k: int| i <= k < start.len() ==> #[trigger] asteroids@[k] == start[k],
        decreases start.len() - i,
    {
        let a = asteroids[i];
        let moved = Asteroid {
            pos: Point {
                x: drift_of(a.pos.x, a.vel.x, delta_t),
                y: drift_of(a.pos.y, a.vel.y, delta_t),
            },
            rot: drift_of(a.rot, a.rot_speed, delta_t),
            ..a
        };
        asteroids.set(i, moved);
        i = i + 1;
    }
}

/// Spawns `n` asteroids in chunk `chunk`, at uniformly drawn places inside it, with
/// drawn velocity, rotation, rotation speed and image, all stamped with `time`.
pub fn spawn_ast_in_chunk(
    asteroids: &mut Vec<Asteroid>,
    n_ast_img: i32,
    n: usize,
    chunk: (i64, i64),
    time: u64,
)
    requires
        n_ast_img > 0,
        chunk_in_plane(chunk),
    ensures
        final(asteroids)@.len() == old(asteroids)@.len() + n,
        final(asteroids)@.take(old(asteroids)@.len() as int) == old(asteroids)@,
        forall|i: int|
            old(asteroids)@.len() <= i < final(asteroids)@.len() ==> fresh_in_chunk(
                #[trigger] final(asteroids)@[i],
                chunk,
                n_ast_img,
                time,
            ),
{
    let ghost start = asteroids@;
    let base_x = chunk.0 * CHUNK_SIZE;
    let base_y = chunk.1 * CHUNK_SIZE;
    let mut k: usize = 0;
    while k < n
        invariant
            k <= n,
            n_ast_img > 0,
            base_x == chunk.0 * CHUNK_SIZE,
            base_y == chunk.1 * CHUNK_SIZE,
            chunk_in_plane(chunk),
            asteroids@.len() == start.len() + k,
            asteroids@.take(start.len() as int) == start,
            forall|i: int|
                start.len() <= i < asteroids@.len() ==> fresh_in_chunk(
                    #[trigger] asteroids@[i],
                    chunk,
                    n_ast_img,
                    time,
                ),
        decreases n - k,
    {
        let pos = Point {
            x: base_x + random_in(0, CHUNK_SIZE),
            y: base_y + random_in(0, CHUNK_SIZE),
        };
        let ast = Asteroid {
            pos,
            vel: Point {
                x: random_in(-AST_SPEED_MAX, AST_SPEED_MAX),
                y: random_in(-AST_SPEED_MAX, AST_SPEED_MAX),
            },
            rot_speed: random_in(-AST_ROT_SPEED_MAX, AST_ROT_SPEED_MAX),
            rot: random_in(-ROT_PI, ROT_PI),
            img_idx: random_in(0, n_ast_img as i64) as i32,
            spawn_time: time,
        };
        let ghost before = asteroids@;
        asteroids.push(ast);
        assert(asteroids@.take(start.len() as int) =~= before.take(start.len() as int));
        k = k + 1;
    }
}

/// Magnitude of a signed integer, without overflow at `i64::MIN`.
pub open spec fn magnitude(v: i64) -> u64 {
    if v < 0 {
        (-(v as int)) as u64
    } else {
        v as u64
    }
}

/// How many asteroids chunk `c` holds: `|x| + (|y| XOR 2)`.
pub open spec fn expected_count(c: (i64, i64)) -> int {
    magnitude(c.0) + (magnitude(c.1) ^ 2u64)
}

fn magnitude_of(v: i64) -> (r: u64)
    ensures
        r == magnitude(v),
{
    if v < 0 {
        (-(v as i128)) as u64
    } else {
        v as u64
    }
}

/// Returns the expected amount of asteroids in a given chunk.
pub fn get_n_ast_in_chunk(pos: (i64, i64)) -> (n: usize)
    requires
        expected_count(pos) <= usize::MAX,
    ensures
        n == expected_count(pos),
{
    let x = magnitude_of(pos.0);
    let y = magnitude_of(pos.1);
    (x + (y ^ 2)) as usize
}

/// The count of a chunk depends on its coordinate alone.
pub proof fn lemma_expected_count_deterministic(a: (i64, i64), b: (i64, i64))
    requires
        a == b,
    ensures
        expected_count(a) == expected_count(b),
{
}

} // verus!
