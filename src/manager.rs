//! The streaming manager: materializes chunks around observers and retires what
//! has fallen out of their range.
use vstd::prelude::*;
use crate::space::{
    Point, chunk_of, chunk_pos_from_pos, lemma_in_chunk_iff_chunk_of, CHUNK_SIZE, CHUNK_PLAYER_DIST,
    ASTEROID_DESPAWN_DIST,
};
use crate::removal::{without, listed, swap_remove_descending};
use vstd::arithmetic::div_mod::{lemma_fundamental_div_mod, lemma_fundamental_div_mod_converse};
use crate::asteroids::{
    Asteroid, advanced, update_asteroids, chunk_in_plane, expected_count, fresh_in_chunk, get_n_ast_in_chunk, spawn_ast_in_chunk,
};
use crate::chunk_index::{ChunkMap, empty_index, index_get, index_insert, index_keys, index_len, index_remove};

verus! {

/// Whether an asteroid lies in chunk `c`.
pub open spec fn in_chunk_pred(c: (i64, i64)) -> spec_fn(Asteroid) -> bool {
    |a: Asteroid| chunk_of(a.pos) == c
}

/// How many asteroids of `s` lie in chunk `c`.
pub open spec fn count_in_chunk(s: Seq<Asteroid>, c: (i64, i64)) -> nat {
    s.filter(in_chunk_pred(c)).len()
}

/// Chunk `c` is within Chebyshev distance `CHUNK_PLAYER_DIST` of the chunk of `o`.
pub open spec fn near_observer_chunk(c: (i64, i64), o: Point) -> bool {
    let oc = chunk_of(o);
    &&& oc.0 - CHUNK_PLAYER_DIST <= c.0 <= oc.0 + CHUNK_PLAYER_DIST
    &&& oc.1 - CHUNK_PLAYER_DIST <= c.1 <= oc.1 + CHUNK_PLAYER_DIST
}

/// A chunk whose square and whose count the machine can hold.
pub open spec fn materializable(c: (i64, i64)) -> bool {
    chunk_in_plane(c) && expected_count(c) <= usize::MAX
}

/// The chunks that an expansion around `obs` materializes if they are missing.
pub open spec fn wanted(c: (i64, i64), obs: Seq<Point>) -> bool {
    &&& materializable(c)
    &&& exists|i: int| 0 <= i < obs.len() && near_observer_chunk(c, #[trigger] obs[i])
}

/// From (`idx0`, `e0`) to (`idx1`, `e1`) only chunks were added, each with its
/// expected count recorded and exactly that many fresh asteroids appended in it.
pub open spec fn grown(
    idx0: Map<(i64, i64), usize>,
    e0: Seq<Asteroid>,
    idx1: Map<(i64, i64), usize>,
    e1: Seq<Asteroid>,
    time: u64,
    n_ast_img: i32,
) -> bool {
    &&& idx0.dom().subset_of(idx1.dom())
    &&& forall|c: (i64, i64)| idx0.contains_key(c) ==> #[trigger] idx1[c] == idx0[c]
    &&& forall|c: (i64, i64)|
        #[trigger] idx1.contains_key(c) && !idx0.contains_key(c) ==> idx1[c] == expected_count(c)
            && count_in_chunk(e1.skip(e0.len() as int), c) == expected_count(c)
    &&& forall|c: (i64, i64)|
        !(#[trigger] idx1.contains_key(c)) ==> count_in_chunk(e1.skip(e0.len() as int), c) == 0
    &&& e0.len() <= e1.len()
    &&& e1.take(e0.len() as int) == e0
    &&& forall|i: int|
        e0.len() <= i < e1.len() ==> {
            let c = chunk_of(#[trigger] e1[i].pos);
            &&& fresh_in_chunk(e1[i], c, n_ast_img, time)
            &&& idx1.contains_key(c)
            &&& !idx0.contains_key(c)
        }
}

/// The outcome of one expansion around `obs`: every wanted chunk is now indexed,
/// and nothing else changed but what `grown` allows.
pub open spec fn expanded(
    idx0: Map<(i64, i64), usize>,
    e0: Seq<Asteroid>,
    idx1: Map<(i64, i64), usize>,
    e1: Seq<Asteroid>,
    obs: Seq<Point>,
    time: u64,
    n_ast_img: i32,
) -> bool {
    &&& idx1.dom() == idx0.dom().union(Set::new(|c: (i64, i64)| wanted(c, obs)))
    &&& grown(idx0, e0, idx1, e1, time, n_ast_img)
}

/// Expanding twice in a row around the same observers: the second expansion adds
/// no asteroid and changes no chunk record.
pub proof fn lemma_expand_idempotent(
    idx0: Map<(i64, i64), usize>,
    e0: Seq<Asteroid>,
    idx1: Map<(i64, i64), usize>,
    e1: Seq<Asteroid>,
    idx2: Map<(i64, i64), usize>,
    e2: Seq<Asteroid>,
    obs: Seq<Point>,
    time1: u64,
    time2: u64,
    n_ast_img: i32,
)
    requires
        expanded(idx0, e0, idx1, e1, obs, time1, n_ast_img),
        expanded(idx1, e1, idx2, e2, obs, time2, n_ast_img),
    ensures
        idx2 == idx1,
        e2 == e1,
{
    assert(idx2.dom() =~= idx1.dom());
    assert(idx2 =~= idx1);
    if e2.len() > e1.len() {
        let c = chunk_of(e2[e1.len() as int].pos);
        assert(idx2.contains_key(c) && !idx1.contains_key(c));
    }
    assert(e2 =~= e2.take(e1.len() as int));
}

/// Every asteroid of `s` advanced by `dt` microseconds.
pub open spec fn advanced_all(s: Seq<Asteroid>, dt: u64) -> Seq<Asteroid> {
    s.map_values(|a: Asteroid| advanced(a, dt))
}

/// The most asteroids one retirement pass examines; above that many, a pass scans
/// them all.
pub const N_UPDATES_FRAMES: usize = 500;

/// Observer `o` keeps asteroid `a`: a signed difference below the despawn distance on
/// both axes (an asteroid far on the positive side of `o`, where the differences are
/// negative, is always kept).
pub open spec fn keeps(o: Point, a: Asteroid) -> bool {
    &&& o.x - a.pos.x < ASTEROID_DESPAWN_DIST
    &&& o.y - a.pos.y < ASTEROID_DESPAWN_DIST
}

/// Some observer keeps asteroid `a`.
pub open spec fn kept_by_any(obs: Seq<Point>, a: Asteroid) -> bool {
    exists|i: int| 0 <= i < obs.len() && keeps(#[trigger] obs[i], a)
}

/// The asteroids that survive retirement around `obs`.
pub open spec fn kept_pred(obs: Seq<Point>) -> spec_fn(Asteroid) -> bool {
    |a: Asteroid| kept_by_any(obs, a)
}

/// The slots that a bounded pass from `cursor` examines in a collection of `n`:
/// `N_UPDATES_FRAMES` consecutive slots, wrapping modulo `n`.
pub open spec fn examined(cursor: int, n: int) -> Set<int> {
    Set::new(|i: int| exists|k: int| 0 <= k < N_UPDATES_FRAMES && i == #[trigger] ((cursor + k) % n))
}

/// The slots that one retirement pass removes: asteroids no observer keeps, among
/// all slots above `N_UPDATES_FRAMES` asteroids, else among the examined slots.
pub open spec fn retired_slots(s: Seq<Asteroid>, obs: Seq<Point>, cursor: int) -> Set<int> {
    Set::new(
        |i: int|
            0 <= i < s.len() && !kept_by_any(obs, s[i]) && (s.len() > N_UPDATES_FRAMES || examined(
                cursor,
                s.len() as int,
            ).contains(i)),
    )
}

/// The cursor after a pass over `n` asteroids: it moves on by the slots examined,
/// modulo `n`, in the bounded branch only.
pub open spec fn next_cursor(cursor: usize, n: nat) -> usize {
    if 0 < n <= N_UPDATES_FRAMES {
        ((cursor + N_UPDATES_FRAMES) % (n as int)) as usize
    } else {
        cursor
    }
}

/// Chunk `c` is kept by an observer in chunk `oc`: a signed difference of at most
/// `CHUNK_PLAYER_DIST` on both axes (a chunk far on the negative side is always kept).
pub open spec fn chunk_kept(c: (i64, i64), oc: (i64, i64)) -> bool {
    &&& c.0 - oc.0 <= CHUNK_PLAYER_DIST
    &&& c.1 - oc.1 <= CHUNK_PLAYER_DIST
}

/// Some observer keeps chunk `c`.
pub open spec fn chunk_kept_by_any(c: (i64, i64), obs: Seq<Point>) -> bool {
    exists|i: int| 0 <= i < obs.len() && chunk_kept(c, chunk_of(#[trigger] obs[i]))
}

/// The chunk index after pruning around `obs`: the records of kept chunks, unchanged.
pub open spec fn pruned(idx: Map<(i64, i64), usize>, obs: Seq<Point>) -> Map<(i64, i64), usize> {
    idx.restrict(Set::new(|c: (i64, i64)| chunk_kept_by_any(c, obs)))
}

proof fn lemma_mod_shift(a: int, q: int, n: int)
    requires
        n > 0,
    ensures
        (n * q + a) % n == a % n,
{
    lemma_fundamental_div_mod(a, n);
    let r = a % n;
    assert(0 <= r < n);
    assert(n * q + a == (q + a / n) * n + r) by (nonlinear_arith)
        requires
            a == n * (a / n) + r,
    ;
    lemma_fundamental_div_mod_converse(n * q + a, n, q + a / n, r);
}

/// In a collection of at most `N_UPDATES_FRAMES` asteroids, one pass examines every slot.
proof fn lemma_examined_covers(cursor: int, n: int, i: int)
    requires
        0 < n <= N_UPDATES_FRAMES,
        0 <= i < n,
    ensures
        examined(cursor, n).contains(i),
{
    let k = (i - cursor) % n;
    lemma_fundamental_div_mod(i - cursor, n);
    let q = (i - cursor) / n;
    assert(cursor + k == n * (-q) + i) by (nonlinear_arith)
        requires
            i - cursor == n * q + k,
    ;
    lemma_mod_shift(i, -q, n);
    assert(i % n == i) by {
        lemma_fundamental_div_mod_converse(i, n, 0, i);
    }
    assert(0 <= k < N_UPDATES_FRAMES);
    assert(i == (cursor + k) % n);
}

/// Round-robin coverage: starting from any cursor and moving it on by
/// `N_UPDATES_FRAMES` slots per pass, modulo `n`, every slot of a collection of `n`
/// is examined within the first `ceil(n / N_UPDATES_FRAMES)` passes.
pub proof fn lemma_round_robin_covers(cursor: int, n: int, i: int)
    requires
        n > 0,
        0 <= i < n,
    ensures
        exists|j: int|
            0 <= j < (n + N_UPDATES_FRAMES - 1) / (N_UPDATES_FRAMES as int) && #[trigger] examined(
                (cursor + j * N_UPDATES_FRAMES) % n,
                n,
            ).contains(i),
{
    let cap = N_UPDATES_FRAMES as int;
    let d = (i - cursor) % n;
    lemma_fundamental_div_mod(i - cursor, n);
    let q = (i - cursor) / n;
    let j = d / cap;
    let k = d % cap;
    lemma_fundamental_div_mod(d, cap);
    assert(0 <= j < (n + cap - 1) / cap) by (nonlinear_arith)
        requires
            0 <= d < n,
            cap == 500,
            j == d / cap,
    ;
    let c2 = (cursor + j * cap) % n;
    lemma_fundamental_div_mod(cursor + j * cap, n);
    let q2 = (cursor + j * cap) / n;
    // c2 + k and i differ by a multiple of n
    assert(c2 + k == n * (-q - q2) + i) by (nonlinear_arith)
        requires
            i - cursor == n * q + d,
            d == cap * j + k,
            cursor + j * cap == n * q2 + c2,
    ;
    lemma_mod_shift(i, -q - q2, n);
    assert(i % n == i) by {
        lemma_fundamental_div_mod_converse(i, n, 0, i);
    }
    assert(0 <= k < cap);
    assert(i == (c2 + k) % n);
    assert(examined(c2, n).contains(i));
}

/// Removing the slots of the asteroids that fail `p` leaves the asteroids that meet it.
proof fn lemma_without_is_filter<T>(s: Seq<T>, p: spec_fn(T) -> bool)
    ensures
        without(s, Set::new(|i: int| 0 <= i < s.len() && !p(s[i]))) == s.filter(p),
    decreases s.len(),
{
    reveal(Seq::filter);
    if s.len() > 0 {
        let t = s.drop_last();
        let rm = Set::new(|i: int| 0 <= i < s.len() && !p(s[i]));
        let rt = Set::new(|i: int| 0 <= i < t.len() && !p(t[i]));
        lemma_without_is_filter(t, p);
        crate::removal::lemma_without_prefix(t, rm, rt);
    }
}

proof fn lemma_filter_all<T>(s: Seq<T>, p: spec_fn(T) -> bool)
    requires
        forall|i: int| 0 <= i < s.len() ==> p(#[trigger] s[i]),
    ensures
        s.filter(p) == s,
    decreases s.len(),
{
    reveal(Seq::filter);
    if s.len() > 0 {
        lemma_filter_all(s.drop_last(), p);
        assert(s.drop_last().push(s.last()) =~= s);
    }
}

proof fn lemma_filter_none<T>(s: Seq<T>, p: spec_fn(T) -> bool)
    requires
        forall|i: int| 0 <= i < s.len() ==> !p(#[trigger] s[i]),
    ensures
        s.filter(p).len() == 0,
    decreases s.len(),
{
    reveal(Seq::filter);
    if s.len() > 0 {
        lemma_filter_none(s.drop_last(), p);
    }
}

/// Appending a batch of fresh asteroids of a new chunk `c` keeps `grown`, with `c` added.
proof fn lemma_grown_append(
    idx0: Map<(i64, i64), usize>,
    e0: Seq<Asteroid>,
    idx1: Map<(i64, i64), usize>,
    e1: Seq<Asteroid>,
    e2: Seq<Asteroid>,
    c: (i64, i64),
    time: u64,
    n_ast_img: i32,
)
    requires
        grown(idx0, e0, idx1, e1, time, n_ast_img),
        !idx1.contains_key(c),
        expected_count(c) <= usize::MAX,
        e2.len() == e1.len() + expected_count(c),
        e2.take(e1.len() as int) == e1,
        forall|i: int| e1.len() <= i < e2.len() ==> fresh_in_chunk(#[trigger] e2[i], c, n_ast_img, time),
    ensures
        grown(idx0, e0, idx1.insert(c, expected_count(c) as usize), e2, time, n_ast_img),
{
    let idx2 = idx1.insert(c, expected_count(c) as usize);
    let batch = e2.skip(e1.len() as int);
    let old_new = e1.skip(e0.len() as int);
    assert(e2.skip(e0.len() as int) =~= old_new + batch);
    assert forall|i: int| 0 <= i < batch.len() implies chunk_of(#[trigger] batch[i].pos) == c by {
        assert(batch[i] == e2[e1.len() + i]);
        lemma_in_chunk_iff_chunk_of(batch[i].pos, c);
    }
    assert forall|d: (i64, i64)| true implies #[trigger] count_in_chunk(e2.skip(e0.len() as int), d)
        == count_in_chunk(old_new, d) + (if d == c { batch.len() } else { 0 }) by {
        Seq::filter_distributes_over_add(old_new, batch, in_chunk_pred(d));
        if d == c {
            lemma_filter_all(batch, in_chunk_pred(d));
        } else {
            lemma_filter_none(batch, in_chunk_pred(d));
        }
    }
    assert(e2.take(e0.len() as int) =~= e1.take(e0.len() as int));
    assert forall|i: int| e0.len() <= i < e2.len() implies {
        let d = chunk_of(#[trigger] e2[i].pos);
        &&& fresh_in_chunk(e2[i], d, n_ast_img, time)
        &&& idx2.contains_key(d)
        &&& !idx0.contains_key(d)
    } by {
        if i < e1.len() {
            assert(e2[i] == e2.take(e1.len() as int)[i]);
        } else {
            lemma_in_chunk_iff_chunk_of(e2[i].pos, c);
        }
    }
}

/// Nothing added yet: `grown` holds from a state to itself.
proof fn lemma_grown_refl(idx: Map<(i64, i64), usize>, e: Seq<Asteroid>, time: u64, n_ast_img: i32)
    ensures
        grown(idx, e, idx, e, time, n_ast_img),
{
    assert(e.skip(e.len() as int) =~= Seq::<Asteroid>::empty());
    assert(e.take(e.len() as int) =~= e);
    assert forall|c: (i64, i64)| true implies count_in_chunk(
        #[trigger] e.skip(e.len() as int),
        c,
    ) == 0 by {
        lemma_filter_none(e.skip(e.len() as int), in_chunk_pred(c));
    }
}

fn is_materializable(c: (i64, i64)) -> (r: bool)
    ensures
        r == materializable(c),
{
    assert(-0x1_0000_0000_0000_0000_0000_0000 < c.0 * CHUNK_SIZE < 0x1_0000_0000_0000_0000_0000_0000) by (nonlinear_arith)
        requires
            -0x8000_0000_0000_0000 <= c.0 < 0x8000_0000_0000_0000,
    ;
    assert(-0x1_0000_0000_0000_0000_0000_0000 < c.1 * CHUNK_SIZE < 0x1_0000_0000_0000_0000_0000_0000) by (nonlinear_arith)
        requires
            -0x8000_0000_0000_0000 <= c.1 < 0x8000_0000_0000_0000,
    ;
    let bx = c.0 as i128 * CHUNK_SIZE as i128;
    let by_ = c.1 as i128 * CHUNK_SIZE as i128;
    if bx < i64::MIN as i128 || bx + CHUNK_SIZE as i128 - 1 > i64::MAX as i128 {
        return false;
    }
    if by_ < i64::MIN as i128 || by_ + CHUNK_SIZE as i128 - 1 > i64::MAX as i128 {
        return false;
    }
    let x = magnitude_u128(c.0);
    let y = magnitude_u128(c.1);
    let ghost my = crate::asteroids::magnitude(c.1);
    assert((my ^ 2u64) as u128 == ((my as u128) ^ 2u128)) by (bit_vector);
    x + (y ^ 2) <= usize::MAX as u128
}

fn magnitude_u128(v: i64) -> (r: u128)
    ensures
        r == crate::asteroids::magnitude(v),
{
    if v < 0 {
        (-(v as i128)) as u128
    } else {
        v as u128
    }
}

/// Whether no observer keeps asteroid `a`.
fn far_from_all(players: &[Point], a: Asteroid) -> (r: bool)
    ensures
        r == !kept_by_any(players@, a),
{
    let mut i: usize = 0;
    while i < players.len()
        invariant
            i <= players@.len(),
            forall|k: int| 0 <= k < i ==> !keeps(#[trigger] players@[k], a),
        decreases players@.len() - i,
    {
        let o = players[i];
        if (o.x as i128) - (a.pos.x as i128) < ASTEROID_DESPAWN_DIST as i128 && (o.y as i128) - (
        a.pos.y as i128) < ASTEROID_DESPAWN_DIST as i128 {
            assert(keeps(players@[i as int], a));
            return false;
        }
        i = i + 1;
    }
    true
}

/// Whether some observer chunk of `pcs` keeps chunk `c`.
fn chunk_near_any(c: (i64, i64), pcs: &Vec<(i64, i64)>) -> (r: bool)
    ensures
        r == exists|k: int| 0 <= k < pcs@.len() && chunk_kept(c, #[trigger] pcs@[k]),
{
    let mut i: usize = 0;
    while i < pcs.len()
        invariant
            i <= pcs@.len(),
            forall|k: int| 0 <= k < i ==> !chunk_kept(c, #[trigger] pcs@[k]),
        decreases pcs@.len() - i,
    {
        let pc = pcs[i];
        if (c.0 as i128) - (pc.0 as i128) <= CHUNK_PLAYER_DIST as i128 && (c.1 as i128) - (
        pc.1 as i128) <= CHUNK_PLAYER_DIST as i128 {
            assert(chunk_kept(c, pcs@[i as int]));
            return true;
        }
        i = i + 1;
    }
    false
}

/// The slots marked `true`, in strictly descending order.
fn marked_descending(marks: &Vec<bool>) -> (idx: Vec<usize>)
    ensures
        crate::removal::descending_slots(idx@, marks@.len()),
        listed::<Asteroid>(idx@, idx@.len() as int) == Set::new(
            |i: int| 0 <= i < marks@.len() && marks@[i],
        ),
{
    let mut idx: Vec<usize> = Vec::new();
    let mut i: usize = marks.len();
    while i > 0
        invariant
            i <= marks@.len(),
            forall|a: int, b: int| 0 <= a < b < idx@.len() ==> idx@[a] > idx@[b],
            forall|a: int| 0 <= a < idx@.len() ==> i <= #[trigger] idx@[a] < marks@.len(),
            listed::<Asteroid>(idx@, idx@.len() as int) == Set::new(
                |k: int| i <= k < marks@.len() && marks@[k],
            ),
        decreases i,
    {
        i = i - 1;
        if marks[i] {
            let ghost before = idx@;
            idx.push(i);
            assert(listed::<Asteroid>(idx@, idx@.len() as int) =~= listed::<Asteroid>(
                before,
                before.len() as int,
            ).insert(i as int)) by {
                assert forall|k: int| 0 <= k < before.len() implies idx@[k] == before[k] by {}
                assert(idx@[before.len() as int] == i);
            }
        }
        assert(listed::<Asteroid>(idx@, idx@.len() as int) =~= Set::new(
            |k: int| i <= k < marks@.len() && marks@[k],
        ));
    }
    idx
}

/// The chunk index and the retirement cursor of the streaming core.
pub struct AsteroidManager {
    last_del_idx: usize,
    // Holds a rough estimate to how many asteroids there are in a chunk
    chunk_counter: ChunkMap,
}

impl AsteroidManager {
    /// The chunk index: coordinate to the count recorded when it was materialized.
    pub closed spec fn chunk_map(&self) -> Map<(i64, i64), usize> {
        self.chunk_counter@
    }

    /// The round-robin cursor of the retirement pass.
    pub closed spec fn cursor(&self) -> usize {
        self.last_del_idx
    }

    /// A manager with no chunk materialized and its cursor at zero.
    pub fn new() -> (r: AsteroidManager)
        ensures
            r.chunk_map() == Map::<(i64, i64), usize>::empty(),
            r.cursor() == 0,
    {
        AsteroidManager { last_del_idx: 0, chunk_counter: empty_index() }
    }

    /// How many chunks are indexed.
    pub fn chunk_count(&self) -> (r: usize)
        ensures
            r == self.chunk_map().len(),
    {
        index_len(&self.chunk_counter)
    }

    /// One tick of the streaming core: moves the asteroids by `delta_t` microseconds,
    /// retires what no observer keeps, prunes the chunk index, then materializes the
    /// chunks that came into view, stamping their asteroids with `time`.
    pub fn tick(
        &mut self,
        asteroids: &mut Vec<Asteroid>,
        players: &Vec<Point>,
        delta_t: u64,
        time: u64,
        n_ast_img: i32,
    )
        requires
            n_ast_img > 0,
        ensures
            exists|kept: Seq<Asteroid>|
                {
                    &&& kept.to_multiset() == advanced_all(old(asteroids)@, delta_t).filter(
                        kept_pred(players@),
                    ).to_multiset()
                    &&& #[trigger] expanded(
                        pruned(old(self).chunk_map(), players@),
                        kept,
                        final(self).chunk_map(),
                        final(asteroids)@,
                        players@,
                        time,
                        n_ast_img,
                    )
                },
            final(self).cursor() == next_cursor(old(self).cursor(), old(asteroids)@.len()),
    {
        update_asteroids(asteroids, delta_t);
        assert(asteroids@ =~= advanced_all(old(asteroids)@, delta_t));
        self.clean_asteroids(asteroids, players.as_slice());
        let ghost kept = asteroids@;
        self.add_asteroids(asteroids, players, time, n_ast_img);
        assert(expanded(
            pruned(old(self).chunk_map(), players@),
            kept,
            self.chunk_map(),
            asteroids@,
            players@,
            time,
            n_ast_img,
        ));
    }

    /// Retirement: removes the asteroids that no observer keeps, then prunes the chunk
    /// index. Above `N_UPDATES_FRAMES` asteroids every one is scanned; otherwise the
    /// pass examines `N_UPDATES_FRAMES` slots from the cursor, wrapping, and moves the
    /// cursor on. Slots are removed by `swap_remove`, so order is not kept.
    pub fn clean_asteroids(&mut self, asteroids: &mut Vec<Asteroid>, players: &[Point])
        ensures
            final(asteroids)@.to_multiset() == without(
                old(asteroids)@,
                retired_slots(old(asteroids)@, players@, old(self).cursor() as int),
            ).to_multiset(),
            final(asteroids)@.to_multiset() == old(asteroids)@.filter(
                kept_pred(players@),
            ).to_multiset(),
            final(self).cursor() == next_cursor(old(self).cursor(), old(asteroids)@.len()),
            0 < old(asteroids)@.len() <= N_UPDATES_FRAMES ==> final(self).cursor() < old(
                asteroids,
            )@.len(),
            final(self).chunk_map() == pruned(old(self).chunk_map(), players@),
    {
        let ghost s = asteroids@;
        let ghost cursor0 = self.last_del_idx as int;
        let n = asteroids.len();
        let mut marks: Vec<bool> = Vec::new();
        let mut j: usize = 0;
        while j < n
            invariant
                j <= n,
                marks@.len() == j,
                forall|k: int| 0 <= k < j ==> !#[trigger] marks@[k],
            decreases n - j,
        {
            marks.push(false);
            j = j + 1;
        }
        if n > N_UPDATES_FRAMES {
            let mut i: usize = 0;
            while i < n
                invariant
                    n == s.len(),
                    asteroids@ == s,
                    i <= n,
                    marks@.len() == n,
                    forall|k: int| 0 <= k < i ==> #[trigger] marks@[k] == !kept_by_any(players@, s[k]),
                    forall|k: int| i <= k < n ==> !#[trigger] marks@[k],
                decreases n - i,
            {
                let far = far_from_all(players, asteroids[i]);
                marks.set(i, far);
                i = i + 1;
            }
            assert(retired_slots(s, players@, cursor0) =~= Set::new(
                |k: int| 0 <= k < marks@.len() && marks@[k],
            ));
        } else if n > 0 {
            let c = self.last_del_idx % n;
            let mut k: usize = 0;
            while k < N_UPDATES_FRAMES
                invariant
                    n == s.len(),
                    0 < n <= N_UPDATES_FRAMES,
                    asteroids@ == s,
                    c == cursor0 % (n as int),
                    cursor0 >= 0,
                    k <= N_UPDATES_FRAMES,
                    marks@.len() == n,
                    forall|i: int|
                        0 <= i < n ==> #[trigger] marks@[i] == (!kept_by_any(players@, s[i])
                            && exists|k2: int| 0 <= k2 < k && i == #[trigger] ((cursor0 + k2) % (n as int))),
                decreases N_UPDATES_FRAMES - k,
            {
                let slot = (c + k) % n;
                proof {
                    lemma_fundamental_div_mod(cursor0, n as int);
                    lemma_mod_shift((c + k) as int, cursor0 / (n as int), n as int);
                    assert(cursor0 + k == (n as int) * (cursor0 / (n as int)) + (c + k));
                }
                if far_from_all(players, asteroids[slot]) {
                    marks.set(slot, true);
                }
                assert forall|i: int| 0 <= i < n implies #[trigger] marks@[i] == (!kept_by_any(
                    players@,
                    s[i],
                ) && exists|k2: int| 0 <= k2 < k + 1 && i == #[trigger] ((cursor0 + k2) % (n as int))) by {
                    if i == slot {
                        assert(i == (cursor0 + k) % (n as int));
                    } else {
                        if exists|k2: int| 0 <= k2 < k + 1 && i == #[trigger] ((cursor0 + k2) % (n as int)) {
                            let k2 = choose|k2: int|
                                0 <= k2 < k + 1 && i == #[trigger] ((cursor0 + k2) % (n as int));
                            assert(k2 != k);
                        }
                    }
                }
                k = k + 1;
            }
            proof {
                lemma_fundamental_div_mod(cursor0, n as int);
                lemma_mod_shift((c + N_UPDATES_FRAMES) as int, cursor0 / (n as int), n as int);
                assert(cursor0 + N_UPDATES_FRAMES == (n as int) * (cursor0 / (n as int)) + (c
                    + N_UPDATES_FRAMES));
            }
            self.last_del_idx = (c + N_UPDATES_FRAMES) % n;
            assert(retired_slots(s, players@, cursor0) =~= Set::new(
                |i: int| 0 <= i < marks@.len() && marks@[i],
            ));
        } else {
            assert(retired_slots(s, players@, cursor0) =~= Set::new(
                |i: int| 0 <= i < marks@.len() && marks@[i],
            ));
        }
        let idx = marked_descending(&marks);
        swap_remove_descending(asteroids, &idx);
        proof {
            let far_slots = Set::new(
                |i: int| 0 <= i < s.len() && !kept_pred(players@)(s[i]),
            );
            assert forall|i: int| 0 <= i < s.len() && !kept_by_any(players@, s[i]) implies #[trigger] retired_slots(s, players@, cursor0).contains(i) by {
                if s.len() <= N_UPDATES_FRAMES {
                    lemma_examined_covers(cursor0, s.len() as int, i);
                }
            }
            assert(retired_slots(s, players@, cursor0) =~= far_slots);
            lemma_without_is_filter(s, kept_pred(players@));
        }
        self.clean_chunks(players);
    }

    /// Chunk pruning: removes the record of every chunk that no observer keeps.
    pub fn clean_chunks(&mut self, players: &[Point])
        ensures
            final(self).chunk_map() == pruned(old(self).chunk_map(), players@),
            final(self).cursor() == old(self).cursor(),
    {
        let ghost m0 = self.chunk_map();
        let ghost cursor0 = self.cursor();
        let mut pcs: Vec<(i64, i64)> = Vec::new();
        let mut i: usize = 0;
        while i < players.len()
            invariant
                i <= players@.len(),
                pcs@.len() == i,
                forall|k: int| 0 <= k < i ==> #[trigger] pcs@[k] == chunk_of(players@[k]),
            decreases players@.len() - i,
        {
            pcs.push(chunk_pos_from_pos(players[i]));
            i = i + 1;
        }
        let keys = index_keys(&self.chunk_counter);
        let mut j: usize = 0;
        while j < keys.len()
            invariant
                j <= keys@.len(),
                self.cursor() == cursor0,
                keys@.to_set() == m0.dom(),
                pcs@.len() == players@.len(),
                forall|k: int| 0 <= k < pcs@.len() ==> #[trigger] pcs@[k] == chunk_of(players@[k]),
                forall|c: (i64, i64)| #[trigger] self.chunk_map().contains_key(c) ==> self.chunk_map()[c] == m0[c],
                self.chunk_map().dom() == m0.dom().difference(
                    Set::new(
                        |c: (i64, i64)|
                            exists|k: int| 0 <= k < j && keys@[k] == c && !chunk_kept_by_any(c, players@),
                    ),
                ),
            decreases keys@.len() - j,
        {
            let key = keys[j];
            let near = chunk_near_any(key, &pcs);
            proof {
                if near {
                    let k = choose|k: int| 0 <= k < pcs@.len() && chunk_kept(key, #[trigger] pcs@[k]);
                    assert(chunk_kept(key, chunk_of(players@[k])));
                } else {
                    assert forall|k: int| 0 <= k < players@.len() implies !chunk_kept(key, chunk_of(#[trigger] players@[k])) by {
                        assert(pcs@[k] == chunk_of(players@[k]));
                    }
                }
            }
            if !near {
                index_remove(&mut self.chunk_counter, key);
            }
            assert(self.chunk_map().dom() =~= m0.dom().difference(
                Set::new(
                    |c: (i64, i64)|
                        exists|k: int| 0 <= k < j + 1 && keys@[k] == c && !chunk_kept_by_any(c, players@),
                ),
            ));
            j = j + 1;
        }
        assert forall|c: (i64, i64)| m0.dom().contains(c) implies keys@.contains(c) by {
            assert(keys@.to_set().contains(c));
        }
        assert(self.chunk_map() =~= pruned(m0, players@));
    }

    /// Where the next bounded retirement pass starts.
    pub fn cursor_position(&self) -> (r: usize)
        ensures
            r == self.cursor(),
    {
        self.last_del_idx
    }

    /// Materializes chunk `c` unless it is indexed already or cannot be held.
    fn expand_chunk(
        &mut self,
        asteroids: &mut Vec<Asteroid>,
        c: (i64, i64),
        time: u64,
        n_ast_img: i32,
        Ghost(idx0): Ghost<Map<(i64, i64), usize>>,
        Ghost(e0): Ghost<Seq<Asteroid>>,
    )
        requires
            n_ast_img > 0,
            grown(idx0, e0, old(self).chunk_map(), old(asteroids)@, time, n_ast_img),
        ensures
            grown(idx0, e0, final(self).chunk_map(), final(asteroids)@, time, n_ast_img),
            final(self).chunk_map().dom() == old(self).chunk_map().dom().union(
                if materializable(c) { set![c] } else { Set::empty() },
            ),
            final(self).cursor() == old(self).cursor(),
    {
        if !is_materializable(c) {
            assert(self.chunk_map().dom() =~= self.chunk_map().dom().union(Set::empty()));
            return;
        }
        match index_get(&self.chunk_counter, c) {
            Some(_) => {
                assert(self.chunk_map().dom() =~= self.chunk_map().dom().union(set![c]));
            },
            None => {
                // So the chunk hasn't been generated
                let ghost e1 = asteroids@;
                let n_ast_expected = get_n_ast_in_chunk(c);
                spawn_ast_in_chunk(asteroids, n_ast_img, n_ast_expected, c, time);
                proof {
                    lemma_grown_append(idx0, e0, self.chunk_map(), e1, asteroids@, c, time, n_ast_img);
                }
                index_insert(&mut self.chunk_counter, c, n_ast_expected);
                assert(self.chunk_map().dom() =~= old(self).chunk_map().dom().union(set![c]));
            },
        }
    }

    /// Materializes every missing chunk of the neighbourhood of observer `o`.
    fn expand_around(
        &mut self,
        asteroids: &mut Vec<Asteroid>,
        o: Point,
        time: u64,
        n_ast_img: i32,
        Ghost(idx0): Ghost<Map<(i64, i64), usize>>,
        Ghost(e0): Ghost<Seq<Asteroid>>,
    )
        requires
            n_ast_img > 0,
            grown(idx0, e0, old(self).chunk_map(), old(asteroids)@, time, n_ast_img),
        ensures
            grown(idx0, e0, final(self).chunk_map(), final(asteroids)@, time, n_ast_img),
            final(self).chunk_map().dom() == old(self).chunk_map().dom().union(
                Set::new(|c: (i64, i64)| materializable(c) && near_observer_chunk(c, o)),
            ),
            final(self).cursor() == old(self).cursor(),
    {
        let ghost start = self.chunk_map().dom();
        let ghost cursor0 = self.cursor();
        let pos = chunk_pos_from_pos(o);
        proof {
            crate::space::lemma_chunk_axis_bounds(o.x);
            crate::space::lemma_chunk_axis_bounds(o.y);
        }
        let mut x: i64 = pos.0 - CHUNK_PLAYER_DIST;
        while x <= pos.0 + CHUNK_PLAYER_DIST
            invariant
                n_ast_img > 0,
                pos == chunk_of(o),
                -4_611_686_018_428 <= pos.0 <= 4_611_686_018_427,
                -4_611_686_018_428 <= pos.1 <= 4_611_686_018_427,
                pos.0 - CHUNK_PLAYER_DIST <= x <= pos.0 + CHUNK_PLAYER_DIST + 1,
                grown(idx0, e0, self.chunk_map(), asteroids@, time, n_ast_img),
                self.cursor() == cursor0,
                self.chunk_map().dom() == start.union(
                    Set::new(|c: (i64, i64)| materializable(c) && near_observer_chunk(c, o) && c.0 < x),
                ),
            decreases pos.0 + CHUNK_PLAYER_DIST + 1 - x,
        {
            let mut y: i64 = pos.1 - CHUNK_PLAYER_DIST;
            while y <= pos.1 + CHUNK_PLAYER_DIST
                invariant
                    n_ast_img > 0,
                    pos == chunk_of(o),
                    -4_611_686_018_428 <= pos.0 <= 4_611_686_018_427,
                    -4_611_686_018_428 <= pos.1 <= 4_611_686_018_427,
                    pos.0 - CHUNK_PLAYER_DIST <= x <= pos.0 + CHUNK_PLAYER_DIST,
                    pos.1 - CHUNK_PLAYER_DIST <= y <= pos.1 + CHUNK_PLAYER_DIST + 1,
                    grown(idx0, e0, self.chunk_map(), asteroids@, time, n_ast_img),
                    self.cursor() == cursor0,
                    self.chunk_map().dom() == start.union(
                        Set::new(
                            |c: (i64, i64)|
                                materializable(c) && near_observer_chunk(c, o) && (c.0 < x || (c.0
                                    == x && c.1 < y)),
                        ),
                    ),
                decreases pos.1 + CHUNK_PLAYER_DIST + 1 - y,
            {
                self.expand_chunk(asteroids, (x, y), time, n_ast_img, Ghost(idx0), Ghost(e0));
                assert(self.chunk_map().dom() =~= start.union(
                    Set::new(
                        |c: (i64, i64)|
                            materializable(c) && near_observer_chunk(c, o) && (c.0 < x || (c.0 == x
                                && c.1 < y + 1)),
                    ),
                ));
                y = y + 1;
            }
            assert(self.chunk_map().dom() =~= start.union(
                Set::new(
                    |c: (i64, i64)| materializable(c) && near_observer_chunk(c, o) && c.0 < x + 1,
                ),
            ));
            x = x + 1;
        }
        assert(self.chunk_map().dom() =~= start.union(
            Set::new(|c: (i64, i64)| materializable(c) && near_observer_chunk(c, o)),
        ));
    }

    /// Expansion: materializes, once, every missing chunk within Chebyshev distance
    /// `CHUNK_PLAYER_DIST` of the chunk of some observer, appending its asteroids and
    /// indexing it with its expected count.
    pub fn add_asteroids(
        &mut self,
        asteroids: &mut Vec<Asteroid>,
        players: &Vec<Point>,
        time: u64,
        n_ast_img: i32,
    )
        requires
            n_ast_img > 0,
        ensures
            expanded(
                old(self).chunk_map(),
                old(asteroids)@,
                final(self).chunk_map(),
                final(asteroids)@,
                players@,
                time,
                n_ast_img,
            ),
            final(self).cursor() == old(self).cursor(),
    {
        let ghost idx0 = self.chunk_map();
        let ghost e0 = asteroids@;
        let ghost cursor0 = self.cursor();
        proof {
            lemma_grown_refl(idx0, e0, time, n_ast_img);
        }
        let mut i: usize = 0;
        while i < players.len()
            invariant
                n_ast_img > 0,
                i <= players@.len(),
                grown(idx0, e0, self.chunk_map(), asteroids@, time, n_ast_img),
                self.cursor() == cursor0,
                self.chunk_map().dom() == idx0.dom().union(
                    Set::new(
                        |c: (i64, i64)|
                            materializable(c) && exists|k: int|
                                0 <= k < i && near_observer_chunk(c, #[trigger] players@[k]),
                    ),
                ),
            decreases players@.len() - i,
        {
            let o = players[i];
            self.expand_around(asteroids, o, time, n_ast_img, Ghost(idx0), Ghost(e0));
            assert(self.chunk_map().dom() =~= idx0.dom().union(
                Set::new(
                    |c: (i64, i64)|
                        materializable(c) && exists|k: int|
                            0 <= k < i + 1 && near_observer_chunk(c, #[trigger] players@[k]),
                ),
            ));
            i = i + 1;
        }
        assert(self.chunk_map().dom() =~= idx0.dom().union(
            Set::new(|c: (i64, i64)| wanted(c, players@)),
        ));
    }
}

} // verus!
