use rts_sim::brain::{
    asteroid_mastermind, enemy_mastermind, run_director, spawn_heading, spawn_origin, spawn_wave,
    spawn_wave_member, AsteroidBrain, EnemyBrain, WaveDirector, WavePayload,
};
use rts_sim::geometry::Position;
use rts_sim::units::{MoveForward, Team};
use rts_sim::world::{MapBoundaries, World};

fn at(x: i32, y: i32) -> Position {
    Position { x, y }
}

fn world() -> World {
    World::new(MapBoundaries::default())
}

fn positions(w: &World) -> Vec<Position> {
    w.entities.iter().map(|e| e.as_ref().unwrap().position).collect()
}

#[test]
fn director_counts_up_each_time_its_countdown_finishes() {
    let mut d = WaveDirector::new(1000);
    assert!(!d.tick(999));
    assert_eq!(d.current_wave, 0);
    assert!(d.tick(1));
    assert_eq!(d.current_wave, 1);
    assert!(!d.time_between_wave.finished());
    assert_eq!(d.time_between_wave.elapsed_millis(), 0);
    assert!(!d.tick(500));
    assert!(d.tick(5000));
    assert_eq!(d.current_wave, 2);
}

#[test]
fn director_counter_stops_at_its_largest_number() {
    let mut d = WaveDirector::new(10);
    d.current_wave = u32::MAX;
    assert!(d.tick(10));
    assert_eq!(d.current_wave, u32::MAX);
}

#[test]
fn default_brains_have_their_periods() {
    let e = EnemyBrain::default();
    let a = AsteroidBrain::default();
    assert_eq!(e.director.current_wave, 0);
    assert_eq!(e.director.time_between_wave.duration_millis(), 20_000);
    assert_eq!(a.director.current_wave, 0);
    assert_eq!(a.director.time_between_wave.duration_millis(), 10_000);
}

#[test]
fn spawn_origin_lies_outside_the_chosen_edge() {
    let b = MapBoundaries::default();
    assert_eq!(spawn_origin(&b, 0, 123), at(123, 1_930_000));
    assert_eq!(spawn_origin(&b, 1, 123), at(1_930_000, 123));
    assert_eq!(spawn_origin(&b, 2, 123), at(123, -1_930_000));
    assert_eq!(spawn_origin(&b, 3, 123), at(-1_930_000, 123));
}

#[test]
fn spawn_origin_saturates_at_the_end_of_the_plane() {
    let b = MapBoundaries { x_min: i32::MIN, x_max: i32::MAX, y_min: i32::MIN, y_max: i32::MAX };
    assert_eq!(spawn_origin(&b, 0, 0), at(0, i32::MAX));
    assert_eq!(spawn_origin(&b, 3, 0), at(i32::MIN, 0));
}

#[test]
fn spawn_heading_points_into_the_play_area() {
    assert_eq!(spawn_heading(0, 5), at(5, -1000));
    assert_eq!(spawn_heading(1, 5), at(-1000, 5));
    assert_eq!(spawn_heading(2, 5), at(5, 1000));
    assert_eq!(spawn_heading(3, 5), at(1000, 5));
}

#[test]
fn hostile_wave_of_nine_stands_on_a_three_by_three_grid() {
    let mut w = world();
    spawn_wave(&mut w, WavePayload::Hostile, 9, 2, at(100, -1_930_000), at(0, 1000));
    assert_eq!(w.entities.len(), 9);
    for (i, p) in positions(&w).iter().enumerate() {
        let col = (i % 3) as i32;
        let row = (i / 3) as i32;
        assert_eq!(*p, at(100 + 80_000 * col, -1_930_000 - 80_000 * row));
    }
    for i in 0..9 {
        let e = w.get(i).unwrap();
        assert_eq!(e.team, Some(Team(1)));
        assert!(e.aggressive.is_some());
        let range = e.attack.as_ref().unwrap().attack_range;
        assert_eq!(range, if i < 7 { 100_000 } else { 200_000 });
    }
}

#[test]
fn wave_grid_grows_away_from_the_play_area() {
    let grow = |side: u8| {
        let mut w = world();
        spawn_wave(&mut w, WavePayload::Hostile, 4, side, at(0, 0), at(0, 0));
        positions(&w)
    };
    assert_eq!(grow(0), vec![at(0, 0), at(80_000, 0), at(0, 80_000), at(80_000, 80_000)]);
    assert_eq!(grow(1), vec![at(0, 0), at(80_000, 0), at(0, -80_000), at(80_000, -80_000)]);
    assert_eq!(grow(2), vec![at(0, 0), at(80_000, 0), at(0, -80_000), at(80_000, -80_000)]);
    assert_eq!(grow(3), vec![at(0, 0), at(-80_000, 0), at(0, -80_000), at(-80_000, -80_000)]);
}

#[test]
fn resource_wave_is_made_of_drifting_deposits() {
    let mut w = world();
    spawn_wave(&mut w, WavePayload::Resource, 2, 0, at(0, 0), at(3, -1000));
    assert_eq!(positions(&w), vec![at(0, 0), at(80_000, 0)]);
    for i in 0..2 {
        let e = w.get(i).unwrap();
        assert_eq!(e.mineable.unwrap().amount, 50);
        assert_eq!(e.move_forward, Some(MoveForward { speed: 40, heading: at(3, -1000) }));
        assert!(e.team.is_none() && e.commands.is_none());
    }
}

#[test]
fn empty_wave_adds_nothing() {
    let mut w = world();
    spawn_wave(&mut w, WavePayload::Hostile, 0, 1, at(0, 0), at(0, -1000));
    assert!(w.entities.is_empty());
}

#[test]
fn wave_member_kinds() {
    let m = spawn_wave_member(WavePayload::Hostile, 6, at(1, 1), at(0, 1));
    let r = spawn_wave_member(WavePayload::Hostile, 7, at(1, 1), at(0, 1));
    assert_eq!(m.velocity.unwrap().0, 120);
    assert_eq!(r.velocity.unwrap().0, 100);
}

fn edge_of(b: &MapBoundaries, p: Position) -> Option<u8> {
    if p.y == b.y_max + 30_000 && b.x_min <= p.x && p.x < b.x_max {
        Some(0)
    } else if p.x == b.x_max + 30_000 && b.y_min <= p.y && p.y < b.y_max {
        Some(1)
    } else if p.y == b.y_min - 30_000 && b.x_min <= p.x && p.x < b.x_max {
        Some(2)
    } else if p.x == b.x_min - 30_000 && b.y_min <= p.y && p.y < b.y_max {
        Some(3)
    } else {
        None
    }
}

fn on_one_edge(b: &MapBoundaries, p: Position) -> bool {
    edge_of(b, p).is_some()
}

fn beyond(b: &MapBoundaries, side: u8, p: Position) -> bool {
    match side {
        0 => p.y > b.y_max,
        1 => p.x > b.x_max,
        2 => p.y < b.y_min,
        _ => p.x < b.x_min,
    }
}

#[test]
fn ninth_wave_brings_nine_entities_on_a_grid_outside_one_edge() {
    let mut seen = Vec::new();
    for _ in 0..200 {
        let mut w = world();
        let mut brain = EnemyBrain::default();
        brain.director.current_wave = 8;
        enemy_mastermind(&mut w, &mut brain, 19_999);
        assert!(w.entities.is_empty());
        enemy_mastermind(&mut w, &mut brain, 1);
        assert_eq!(brain.director.current_wave, 9);
        assert_eq!(w.entities.len(), 9);
        let ps = positions(&w);
        let side = edge_of(&w.boundaries, ps[0]).unwrap();
        if !seen.contains(&side) {
            seen.push(side);
        }
        let across = if side == 3 { -80_000 } else { 80_000 };
        let along = if side == 0 { 80_000 } else { -80_000 };
        for (i, p) in ps.iter().enumerate() {
            let col = (i % 3) as i32;
            let row = (i / 3) as i32;
            assert_eq!(*p, at(ps[0].x + across * col, ps[0].y + along * row));
            assert!(beyond(&w.boundaries, side, *p));
        }
        for i in 0..9 {
            for j in 0..i {
                assert!(ps[i] != ps[j]);
            }
        }
    }
    assert_eq!(seen.len(), 4);
}

#[test]
fn waves_of_deposits_stand_outside_their_edge_too() {
    for _ in 0..100 {
        let mut w = world();
        let mut brain = AsteroidBrain::default();
        brain.director.current_wave = 4;
        asteroid_mastermind(&mut w, &mut brain, 10_000);
        assert_eq!(w.entities.len(), 5);
        let ps = positions(&w);
        let side = edge_of(&w.boundaries, ps[0]).unwrap();
        assert!(ps.iter().all(|p| beyond(&w.boundaries, side, *p)));
    }
}

#[test]
fn draws_stay_in_a_narrow_play_area() {
    let b = MapBoundaries { x_min: 5, x_max: 6, y_min: -3, y_max: -2 };
    for _ in 0..50 {
        let mut w = World::new(b);
        let mut d = WaveDirector::new(0);
        run_director(&mut w, &mut d, WavePayload::Resource, 0);
        assert_eq!(w.entities.len(), 1);
        let e = w.get(0).unwrap();
        assert!(on_one_edge(&b, e.position));
        let h = e.move_forward.unwrap().heading;
        let inward = h.x.abs() == 1000 || h.y.abs() == 1000;
        assert!(inward && -1000 <= h.x && h.x <= 1000 && -1000 <= h.y && h.y <= 1000);
    }
}

#[test]
fn asteroid_director_escalates_like_the_hostile_one() {
    let mut w = world();
    let mut brain = AsteroidBrain::default();
    asteroid_mastermind(&mut w, &mut brain, 10_000);
    assert_eq!(w.entities.len(), 1);
    asteroid_mastermind(&mut w, &mut brain, 10_000);
    assert_eq!(w.entities.len(), 3);
    assert!(w.get(2).unwrap().mineable.is_some());
}

#[test]
fn directors_are_independent() {
    let mut w = world();
    let mut enemy = EnemyBrain::default();
    let mut rocks = AsteroidBrain::default();
    enemy_mastermind(&mut w, &mut enemy, 15_000);
    asteroid_mastermind(&mut w, &mut rocks, 15_000);
    assert_eq!(enemy.director.current_wave, 0);
    assert_eq!(rocks.director.current_wave, 1);
    assert_eq!(enemy.director.time_between_wave.elapsed_millis(), 15_000);
    assert_eq!(rocks.director.time_between_wave.elapsed_millis(), 0);
}

#[test]
fn draws_vary_from_wave_to_wave() {
    let mut edges = Vec::new();
    let mut places = Vec::new();
    for _ in 0..200 {
        let mut w = world();
        let mut d = WaveDirector::new(0);
        run_director(&mut w, &mut d, WavePayload::Resource, 0);
        let e = w.get(0).unwrap();
        let p = e.position;
        let edge = if p.y == 1_930_000 {
            0
        } else if p.x == 1_930_000 {
            1
        } else if p.y == -1_930_000 {
            2
        } else {
            3
        };
        if !edges.contains(&edge) {
            edges.push(edge);
        }
        if !places.contains(&p) {
            places.push(p);
        }
    }
    assert!(edges.len() > 1);
    assert!(places.len() > 4);
}
