use rts_sim::brain::{AsteroidBrain, EnemyBrain};
use rts_sim::geometry::Position;
use rts_sim::production::{BuildOrder, BuildQueue};
use rts_sim::roster::{
    spawn_asteroid, spawn_melee_ally, spawn_melee_enemy, spawn_miner_ally, spawn_mother_ship,
    spawn_ranged_ally, spawn_ranged_enemy, spawn_units,
};
use rts_sim::session::{
    check_if_won, count_team, detect_lose, post_update, reset_mastermind, room_for_end_point,
    spawn_end_point, update, EndGameTimer,
};
use rts_sim::units::{Entity, Team, UnitCommand};
use rts_sim::world::{MapBoundaries, MineralResources, World};

fn at(x: i32, y: i32) -> Position {
    Position { x, y }
}

fn world() -> World {
    World::new(MapBoundaries::default())
}

#[test]
fn new_world_is_empty_with_the_starting_stockpile() {
    let w = world();
    assert!(w.entities.is_empty());
    assert!(w.damage_events.is_empty());
    assert_eq!(w.minerals.mineral, 50);
    assert_eq!(MineralResources::default().mineral, 50);
    let b = MapBoundaries::default();
    assert_eq!((b.x_min, b.x_max, b.y_min, b.y_max), (-1_900_000, 1_900_000, -1_900_000, 1_900_000));
    assert!(b.is_valid());
    assert!(!MapBoundaries { x_min: 0, x_max: 0, y_min: 0, y_max: 1 }.is_valid());
}

#[test]
fn handles_are_slots_and_stay_dangling_after_despawn() {
    let mut w = world();
    let a = w.spawn(Entity::bare(at(1, 1)));
    let b = w.spawn(Entity::bare(at(2, 2)));
    assert_eq!((a, b), (0, 1));
    assert!(w.is_alive(a));
    w.despawn(a);
    w.despawn(17);
    assert!(!w.is_alive(a));
    assert!(w.get(a).is_none());
    assert_eq!(w.position_of(a), None);
    assert_eq!(w.position_of(b), Some(at(2, 2)));
    assert_eq!(w.other_position(a, b), Some(at(2, 2)));
    assert_eq!(w.other_position(b, b), None);
    let c = w.spawn(Entity::bare(at(3, 3)));
    assert_eq!(c, 2);
}

#[test]
fn depot_is_the_first_mother_unit() {
    let mut w = world();
    assert_eq!(w.depot(), None);
    w.spawn(spawn_ranged_ally(at(0, 0)));
    let d = w.spawn(spawn_mother_ship(at(0, 0)));
    w.spawn(spawn_mother_ship(at(9, 9)));
    assert_eq!(w.depot(), Some(d));
    w.despawn(d);
    assert_eq!(w.depot(), Some(2));
}

#[test]
fn session_starts_with_the_depot_four_miners_two_rangers_and_a_deposit() {
    let mut w = world();
    spawn_units(&mut w);
    assert_eq!(w.entities.len(), 8);
    assert_eq!(w.depot(), Some(0));
    assert_eq!(w.get(0).unwrap().position, at(0, -100_000));
    let xs: Vec<i32> = (1..5).map(|i| w.get(i).unwrap().position.x).collect();
    assert_eq!(xs, vec![-200_000, -100_000, 0, 100_000]);
    assert!((1..5).all(|i| w.get(i).unwrap().mining.is_some()));
    assert_eq!(w.get(5).unwrap().position, at(-100_000, -4_500));
    assert_eq!(w.get(6).unwrap().position, at(0, 0));
    assert_eq!(w.get(7).unwrap().mineable.unwrap().amount, 100);
    assert_eq!(count_team(&w, 0), 7);
    assert_eq!(count_team(&w, 1), 0);
}

#[test]
fn roster_has_the_stats_of_each_kind() {
    let kinds: Vec<(Entity, i32, u32, u32, u32, u32)> = vec![
        (spawn_melee_enemy(at(0, 0)), 1, 70, 120, 100_000, 10),
        (spawn_ranged_enemy(at(0, 0)), 1, 70, 100, 200_000, 10),
        (spawn_ranged_ally(at(0, 0)), 0, 150, 150, 300_000, 10),
        (spawn_melee_ally(at(0, 0)), 0, 200, 250, 100_000, 10),
        (spawn_miner_ally(at(0, 0)), 0, 150, 150, 50_000, 10),
        (spawn_mother_ship(at(0, 0)), 0, 300, 50, 300_000, 1),
    ];
    for (e, team, hp, speed, range, amount) in kinds {
        assert_eq!(e.team, Some(Team(team)));
        assert_eq!(e.health.unwrap().current, hp);
        assert_eq!(e.health.unwrap().max_health, hp);
        assert_eq!(e.velocity.unwrap().0, speed);
        let a = e.attack.as_ref().unwrap();
        assert_eq!((a.attack_range, a.attack_amount), (range, amount));
        assert!(a.time_between_attacks.finished());
        assert!(e.commands.as_ref().unwrap().commands.is_empty());
        assert!(e.avoidance.is_some());
    }
    assert_eq!(
        spawn_melee_ally(at(0, 0)).attack.unwrap().time_between_attacks.duration_millis(),
        750
    );
    let miner = spawn_miner_ally(at(0, 0));
    let m = miner.mining.as_ref().unwrap();
    assert_eq!((m.current_carry, m.max_carry), (0, 10));
    assert_eq!((m.approach_range, m.mine_range), (110_000, 130_000));
    assert!(!m.time_between_mine.finished());
    assert_eq!(m.time_between_mine.duration_millis(), 250);
    assert!(spawn_melee_enemy(at(0, 0)).aggressive.is_some());
    assert!(spawn_ranged_ally(at(0, 0)).mild_aggression.is_some());
    assert!(spawn_miner_ally(at(0, 0)).mild_aggression.is_none());
    let rock = spawn_asteroid(at(0, 0), at(1, 0), 40, 50);
    assert_eq!(rock.health.unwrap().max_health, 100);
    assert!(rock.team.is_none());
}

#[test]
fn reset_puts_everything_back() {
    let mut m = MineralResources { mineral: 3 };
    let mut e = EnemyBrain::default();
    let mut a = AsteroidBrain::default();
    let mut q = BuildQueue::default();
    e.director.tick(20_000);
    a.director.tick(7000);
    q.max_request = 9;
    let mut rich = MineralResources { mineral: 100 };
    q.request(&mut rich, BuildOrder::Miner(None));
    q.build_time.tick(100);
    reset_mastermind(&mut m, &mut e, &mut a, &mut q);
    assert_eq!(m.mineral, 50);
    assert_eq!(e.director.current_wave, 0);
    assert_eq!(e.director.time_between_wave.elapsed_millis(), 0);
    assert_eq!(a.director.time_between_wave.elapsed_millis(), 0);
    assert_eq!(a.director.time_between_wave.duration_millis(), 10_000);
    assert!(q.queue.is_empty());
    assert_eq!(q.max_request, 5);
    assert_eq!(q.build_time.elapsed_millis(), 0);
    assert_eq!(q.build_time.duration_millis(), 5000);
}

#[test]
fn session_is_lost_without_a_depot_of_the_player() {
    let mut w = world();
    assert!(detect_lose(&w));
    let d = w.spawn(spawn_mother_ship(at(0, 0)));
    assert!(!detect_lose(&w));
    w.entities[d].as_mut().unwrap().team = Some(Team(1));
    assert!(detect_lose(&w));
    w.entities[d].as_mut().unwrap().team = Some(Team(0));
    w.despawn(d);
    assert!(detect_lose(&w));
}

#[test]
fn session_is_won_when_the_depot_reaches_the_extraction_point() {
    let mut w = world();
    w.spawn(spawn_ranged_ally(at(0, 0)));
    assert!(!check_if_won(&w, at(0, 0)));
    w.spawn(spawn_mother_ship(at(50_000, 0)));
    assert!(!check_if_won(&w, at(0, 0)));
    assert!(check_if_won(&w, at(1, 0)));
}

#[test]
fn a_tick_runs_orders_shots_countdowns_and_drift() {
    let mut w = world();
    let u = w.spawn(spawn_ranged_ally(at(0, 0)));
    let foe = w.spawn(spawn_melee_enemy(at(200_000, 0)));
    let rock = w.spawn(spawn_asteroid(at(0, 900_000), at(0, -1), 40, 5));
    w.entities[u].as_mut().unwrap().commands.as_mut().unwrap().commands =
        vec![UnitCommand::AttackEntity(foe)];
    update(&mut w, 100);
    assert_eq!(w.entities.len(), 4);
    assert_eq!(w.get(3).unwrap().position, at(0, 0));
    assert_eq!(
        w.get(u).unwrap().attack.as_ref().unwrap().time_between_attacks.elapsed_millis(),
        100
    );
    assert_eq!(
        w.get(foe).unwrap().commands.as_ref().unwrap().commands,
        vec![UnitCommand::AttackEntity(u)]
    );
    assert_eq!(w.get(rock).unwrap().position, at(0, 896_000));
    update(&mut w, 100);
    assert_eq!(w.get(3).unwrap().position, at(100_000, 0));
    assert_eq!(w.get(foe).unwrap().position, at(188_000, 0));
    post_update(&mut w);
    assert_eq!(w.entities.len(), 4);
}

#[test]
fn extraction_point_appears_once_the_countdown_has_finished() {
    for _ in 0..50 {
        let mut w = world();
        w.spawn(spawn_mother_ship(at(0, 0)));
        assert!(room_for_end_point(&w.boundaries));
        let mut timer = EndGameTimer::default();
        let mut point = None;
        spawn_end_point(&w, &mut timer, &mut point, 299_999);
        assert_eq!(point, None);
        assert_eq!(timer.0.elapsed_millis(), 299_999);
        spawn_end_point(&w, &mut timer, &mut point, 1);
        let p = point.unwrap();
        assert!(-1_800_000 <= p.x && p.x < 1_800_000);
        assert!(-1_800_000 <= p.y && p.y < 1_800_000);
        let far = (p.x as i64) * (p.x as i64) + (p.y as i64) * (p.y as i64);
        assert!(far >= 200_000i64 * 200_000);
        spawn_end_point(&w, &mut timer, &mut point, 1000);
        assert_eq!(point, Some(p));
    }
}

#[test]
fn extraction_point_waits_for_a_depot() {
    let w = world();
    let mut timer = EndGameTimer::default();
    let mut point = None;
    spawn_end_point(&w, &mut timer, &mut point, 400_000);
    assert_eq!(point, None);
    assert!(timer.0.finished());
    let narrow = MapBoundaries { x_min: 0, x_max: 200_000, y_min: 0, y_max: 900_000 };
    assert!(!room_for_end_point(&narrow));
    let wide = MapBoundaries { x_min: 0, x_max: 200_001, y_min: 0, y_max: 900_000 };
    assert!(room_for_end_point(&wide));
}
