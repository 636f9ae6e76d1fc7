use game_logic::asteroids::{AST_ROT_SPEED_MAX, AST_SPEED_MAX, ROT_PI};
use game_logic::manager::N_UPDATES_FRAMES;
use game_logic::removal::swap_remove_descending;
use game_logic::space::{ASTEROID_DESPAWN_DIST, CHUNK_PLAYER_DIST, CHUNK_SIZE, UNIT};
use game_logic::{
    chunk_pos_from_pos, get_n_ast_in_chunk, spawn_ast_in_chunk, update_asteroids, Asteroid,
    AsteroidManager, Point,
};

fn rock_at(x: i64, y: i64) -> Asteroid {
    Asteroid {
        pos: Point { x, y },
        vel: Point { x: 0, y: 0 },
        rot_speed: 0,
        rot: 0,
        img_idx: 0,
        spawn_time: 0,
    }
}

#[test]
fn despawn_distance_and_counts_of_two_chunks() {
    assert_eq!(CHUNK_SIZE, 2 * UNIT);
    assert_eq!(CHUNK_PLAYER_DIST, 6);
    assert_eq!(ASTEROID_DESPAWN_DIST, 12 * UNIT);
    assert_eq!(get_n_ast_in_chunk((0, 0)), 2);
    assert_eq!(get_n_ast_in_chunk((3, -2)), 3);
}

#[test]
fn expected_count_formula_values() {
    assert_eq!(get_n_ast_in_chunk((0, 1)), 3);
    assert_eq!(get_n_ast_in_chunk((-5, 0)), 7);
    assert_eq!(get_n_ast_in_chunk((4, 3)), 5);
    assert_eq!(get_n_ast_in_chunk((-1, -6)), 5);
}

#[test]
fn expected_count_is_deterministic() {
    for x in -20..20 {
        for y in -20..20 {
            assert_eq!(get_n_ast_in_chunk((x, y)), get_n_ast_in_chunk((x, y)));
        }
    }
}

#[test]
fn chunk_of_position_rounds_down() {
    assert_eq!(chunk_pos_from_pos(Point { x: 0, y: 0 }), (0, 0));
    assert_eq!(chunk_pos_from_pos(Point { x: CHUNK_SIZE - 1, y: CHUNK_SIZE }), (0, 1));
    assert_eq!(chunk_pos_from_pos(Point { x: -1, y: -CHUNK_SIZE }), (-1, -1));
    assert_eq!(chunk_pos_from_pos(Point { x: -CHUNK_SIZE - 1, y: 5 * CHUNK_SIZE + 3 }), (-2, 5));
}

#[test]
fn spawned_asteroids_lie_in_their_chunk() {
    let mut rocks = vec![rock_at(7, 7)];
    spawn_ast_in_chunk(&mut rocks, 3, 200, (-3, 7), 42);
    assert_eq!(rocks.len(), 201);
    assert_eq!(rocks[0], rock_at(7, 7));
    for a in &rocks[1..] {
        assert!(-3 * CHUNK_SIZE <= a.pos.x && a.pos.x < -2 * CHUNK_SIZE);
        assert!(7 * CHUNK_SIZE <= a.pos.y && a.pos.y < 8 * CHUNK_SIZE);
        assert_eq!(chunk_pos_from_pos(a.pos), (-3, 7));
        assert!(-AST_SPEED_MAX <= a.vel.x && a.vel.x < AST_SPEED_MAX);
        assert!(-AST_SPEED_MAX <= a.vel.y && a.vel.y < AST_SPEED_MAX);
        assert!(-AST_ROT_SPEED_MAX <= a.rot_speed && a.rot_speed < AST_ROT_SPEED_MAX);
        assert!(-ROT_PI <= a.rot && a.rot < ROT_PI);
        assert!(0 <= a.img_idx && a.img_idx < 3);
        assert_eq!(a.spawn_time, 42);
    }
    // the draws are not all the low end of their range
    assert!(rocks[1..].iter().any(|a| a.pos.x != -3 * CHUNK_SIZE));
    assert!(rocks[1..].iter().any(|a| a.vel.y != -AST_SPEED_MAX));
}

#[test]
fn motion_is_an_euler_step() {
    let mut rocks = vec![Asteroid {
        pos: Point { x: 10, y: -10 },
        vel: Point { x: 100_000, y: -1 },
        rot_speed: 1_000_000,
        rot: 5,
        img_idx: 2,
        spawn_time: 9,
    }];
    update_asteroids(&mut rocks, 16_000);
    assert_eq!(rocks[0].pos, Point { x: 1_610, y: -11 });
    assert_eq!(rocks[0].rot, 16_005);
    assert_eq!(rocks[0].vel, Point { x: 100_000, y: -1 });
    assert_eq!(rocks[0].img_idx, 2);
    assert_eq!(rocks[0].spawn_time, 9);
}

#[test]
fn motion_holds_at_the_edge_of_the_plane() {
    let mut rocks = vec![Asteroid {
        pos: Point { x: i64::MAX - 5, y: i64::MIN + 5 },
        vel: Point { x: 10_000_000, y: -10_000_000 },
        rot_speed: 0,
        rot: 0,
        img_idx: 0,
        spawn_time: 0,
    }];
    update_asteroids(&mut rocks, 1_000_000);
    assert_eq!(rocks[0].pos, Point { x: i64::MAX, y: i64::MIN });
}

#[test]
fn single_observer_expansion_materializes_169_chunks() {
    let mut mgr = AsteroidManager::new();
    let mut rocks: Vec<Asteroid> = Vec::new();
    let observers = vec![Point { x: 0, y: 0 }];
    mgr.add_asteroids(&mut rocks, &observers, 1, 1);
    assert_eq!(mgr.chunk_count(), 169);
    let mut expected = 0;
    for x in -6..=6 {
        for y in -6..=6 {
            expected += get_n_ast_in_chunk((x, y));
        }
    }
    assert_eq!(rocks.len(), expected);
    for a in &rocks {
        let (cx, cy) = chunk_pos_from_pos(a.pos);
        assert!((-6..=6).contains(&cx) && (-6..=6).contains(&cy));
    }
}

#[test]
fn expansion_counts_each_chunk_exactly() {
    let mut mgr = AsteroidManager::new();
    let mut rocks: Vec<Asteroid> = Vec::new();
    let observers = vec![Point { x: 3 * UNIT, y: -5 * UNIT }];
    mgr.add_asteroids(&mut rocks, &observers, 1, 2);
    // the observer is in chunk (1, -3)
    for x in -5..=7 {
        for y in -9..=3 {
            let n = rocks.iter().filter(|a| chunk_pos_from_pos(a.pos) == (x, y)).count();
            assert_eq!(n, get_n_ast_in_chunk((x, y)));
        }
    }
    assert_eq!(mgr.chunk_count(), 169);
}

#[test]
fn expansion_twice_adds_nothing() {
    let mut mgr = AsteroidManager::new();
    let mut rocks: Vec<Asteroid> = Vec::new();
    let observers = vec![Point { x: 0, y: 0 }, Point { x: 9 * CHUNK_SIZE, y: 0 }];
    mgr.add_asteroids(&mut rocks, &observers, 1, 1);
    let count = mgr.chunk_count();
    let snapshot = rocks.clone();
    mgr.add_asteroids(&mut rocks, &observers, 2, 1);
    assert_eq!(mgr.chunk_count(), count);
    assert_eq!(rocks, snapshot);
}

#[test]
fn overlapping_observers_materialize_shared_chunks_once() {
    let mut mgr = AsteroidManager::new();
    let mut rocks: Vec<Asteroid> = Vec::new();
    let observers = vec![Point { x: 0, y: 0 }, Point { x: CHUNK_SIZE, y: 0 }];
    mgr.add_asteroids(&mut rocks, &observers, 1, 1);
    assert_eq!(mgr.chunk_count(), 14 * 13);
    let n = rocks.iter().filter(|a| chunk_pos_from_pos(a.pos) == (0, 0)).count();
    assert_eq!(n, 2);
}

#[test]
fn no_observer_expands_nothing() {
    let mut mgr = AsteroidManager::new();
    let mut rocks: Vec<Asteroid> = Vec::new();
    mgr.add_asteroids(&mut rocks, &Vec::new(), 1, 1);
    assert_eq!(mgr.chunk_count(), 0);
    assert!(rocks.is_empty());
}

#[test]
fn swap_removal_keeps_exactly_the_others() {
    let mut v: Vec<u32> = (0..10).map(|i| i * 10).collect();
    swap_remove_descending(&mut v, &vec![9, 6, 2, 0]);
    assert_eq!(v.len(), 6);
    let mut sorted = v.clone();
    sorted.sort();
    assert_eq!(sorted, vec![10, 30, 40, 50, 70, 80]);
}

#[test]
fn swap_removal_of_nothing_and_of_all() {
    let mut v: Vec<u32> = vec![1, 2, 3];
    swap_remove_descending(&mut v, &Vec::new());
    assert_eq!(v, vec![1, 2, 3]);
    swap_remove_descending(&mut v, &vec![2, 1, 0]);
    assert!(v.is_empty());
}

#[test]
fn over_cap_retirement_scans_all_501() {
    let mut mgr = AsteroidManager::new();
    let mut rocks: Vec<Asteroid> = Vec::new();
    for i in 0..501i64 {
        // every third asteroid lies far on the positive side of the observer
        if i % 3 == 0 {
            rocks.push(rock_at(-ASTEROID_DESPAWN_DIST - i, 0));
        } else {
            rocks.push(rock_at(i, i));
        }
    }
    assert!(rocks.len() > N_UPDATES_FRAMES);
    mgr.clean_asteroids(&mut rocks, &[Point { x: 0, y: 0 }]);
    assert_eq!(rocks.len(), 334);
    assert!(rocks.iter().all(|a| a.pos.x >= 0));
    assert_eq!(mgr.cursor_position(), 0);
}

#[test]
fn under_cap_retirement_moves_the_cursor() {
    let mut mgr = AsteroidManager::new();
    let mut rocks: Vec<Asteroid> = Vec::new();
    for i in 0..7i64 {
        rocks.push(rock_at(i, 0));
    }
    rocks.push(rock_at(-ASTEROID_DESPAWN_DIST, 0));
    rocks.push(rock_at(0, -ASTEROID_DESPAWN_DIST - 1));
    mgr.clean_asteroids(&mut rocks, &[Point { x: 0, y: 0 }]);
    assert_eq!(rocks.len(), 7);
    assert_eq!(mgr.cursor_position(), 500 % 9);
    mgr.clean_asteroids(&mut rocks, &[Point { x: 0, y: 0 }]);
    assert_eq!(rocks.len(), 7);
    assert_eq!(mgr.cursor_position(), (500 % 9 + 500) % 7);
    let mut xs: Vec<i64> = rocks.iter().map(|a| a.pos.x).collect();
    xs.sort();
    assert_eq!(xs, vec![0, 1, 2, 3, 4, 5, 6]);
}

#[test]
fn retirement_compares_signed_differences() {
    let mut mgr = AsteroidManager::new();
    let mut rocks = vec![rock_at(1_000 * UNIT, 1_000 * UNIT), rock_at(-1_000 * UNIT, 0)];
    mgr.clean_asteroids(&mut rocks, &[Point { x: 0, y: 0 }]);
    assert_eq!(rocks, vec![rock_at(1_000 * UNIT, 1_000 * UNIT)]);
}

#[test]
fn retirement_without_observers_removes_all() {
    let mut mgr = AsteroidManager::new();
    let mut rocks = vec![rock_at(0, 0), rock_at(5, 5)];
    mgr.clean_asteroids(&mut rocks, &[]);
    assert!(rocks.is_empty());
}

#[test]
fn retirement_of_an_empty_store_is_skipped() {
    let mut mgr = AsteroidManager::new();
    let mut rocks: Vec<Asteroid> = Vec::new();
    mgr.clean_asteroids(&mut rocks, &[Point { x: 0, y: 0 }]);
    assert!(rocks.is_empty());
    assert_eq!(mgr.cursor_position(), 0);
}

#[test]
fn chunk_pruning_uses_signed_differences() {
    let mut mgr = AsteroidManager::new();
    let mut rocks: Vec<Asteroid> = Vec::new();
    mgr.add_asteroids(&mut rocks, &vec![Point { x: 0, y: 0 }], 1, 1);
    assert_eq!(mgr.chunk_count(), 169);
    // with the observer 10 chunks lower, only rows at most 6 above its own stay
    let far = Point { x: 0, y: -10 * CHUNK_SIZE };
    mgr.clean_chunks(&[far]);
    // kept: c.1 - (-10) <= 6, that is c.1 <= -4; rows -6, -5, -4 of 13 columns
    assert_eq!(mgr.chunk_count(), 39);
    mgr.clean_chunks(&[Point { x: 0, y: 0 }]);
    assert_eq!(mgr.chunk_count(), 39);
    mgr.clean_chunks(&[]);
    assert_eq!(mgr.chunk_count(), 0);
}

#[test]
fn tick_from_nothing_fills_the_neighbourhood() {
    let mut mgr = AsteroidManager::new();
    let mut rocks: Vec<Asteroid> = Vec::new();
    let observers = vec![Point { x: 0, y: 0 }];
    mgr.tick(&mut rocks, &observers, 16_000, 5, 4);
    assert_eq!(mgr.chunk_count(), 169);
    assert!(rocks.iter().all(|a| a.spawn_time == 5 && a.img_idx < 4));
    let n = rocks.len();
    mgr.tick(&mut rocks, &observers, 16_000, 6, 4);
    assert_eq!(mgr.chunk_count(), 169);
    assert!(rocks.len() <= n);
}
