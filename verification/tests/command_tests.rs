use rts_sim::geometry::{distance_squared, Position};
use rts_sim::movement::{move_unit, move_units, spawn_bullet, tick_mining_timers};
use rts_sim::roster::{
    spawn_asteroid, spawn_melee_enemy, spawn_miner_ally, spawn_mother_ship, spawn_ranged_ally,
};
use rts_sim::units::{Entity, FlyingBullet, UnitCommand};
use rts_sim::world::{MapBoundaries, World};

fn at(x: i32, y: i32) -> Position {
    Position { x, y }
}

fn world() -> World {
    World::new(MapBoundaries::default())
}

fn order(world: &mut World, id: usize, commands: Vec<UnitCommand>) {
    world.entities[id].as_mut().unwrap().commands.as_mut().unwrap().commands = commands;
}

fn orders(world: &World, id: usize) -> Vec<UnitCommand> {
    world.get(id).unwrap().commands.as_ref().unwrap().commands.clone()
}

fn unit(world: &World, id: usize) -> &Entity {
    world.get(id).unwrap()
}

fn mine(world: &mut World, id: usize, dt_ms: u32) {
    tick_mining_timers(world, dt_ms);
    move_unit(world, id, dt_ms);
}

#[test]
fn idle_unit_stays() {
    let mut w = world();
    let u = w.spawn(spawn_ranged_ally(at(10, 20)));
    move_units(&mut w, 16);
    assert_eq!(unit(&w, u).position, at(10, 20));
    assert!(orders(&w, u).is_empty());
    assert_eq!(w.entities.len(), 1);
}

#[test]
fn move_order_moves_at_speed_and_faces_the_goal() {
    let mut w = world();
    let u = w.spawn(spawn_ranged_ally(at(0, 0)));
    order(&mut w, u, vec![UnitCommand::MoveToPos(at(10_000, 0))]);
    move_units(&mut w, 16);
    assert_eq!(unit(&w, u).position, at(2400, 0));
    assert_eq!(unit(&w, u).face.unwrap().face_to_pos, at(10_000, 0));
    assert_eq!(orders(&w, u), vec![UnitCommand::MoveToPos(at(10_000, 0))]);
}

#[test]
fn move_order_completes_within_the_arrival_distance_and_is_popped() {
    let mut w = world();
    let u = w.spawn(spawn_ranged_ally(at(0, 0)));
    order(
        &mut w,
        u,
        vec![UnitCommand::MoveToPos(at(2000, 0)), UnitCommand::MoveToPos(at(0, 90_000))],
    );
    move_units(&mut w, 16);
    assert_eq!(unit(&w, u).position, at(0, 0));
    assert_eq!(
        orders(&w, u),
        vec![UnitCommand::Completed, UnitCommand::MoveToPos(at(0, 90_000))]
    );
    move_units(&mut w, 16);
    assert_eq!(unit(&w, u).position, at(0, 0));
    assert_eq!(orders(&w, u), vec![UnitCommand::MoveToPos(at(0, 90_000))]);
    move_units(&mut w, 16);
    assert_eq!(unit(&w, u).position, at(0, 2400));
}

#[test]
fn move_order_just_beyond_the_arrival_distance_still_moves() {
    let mut w = world();
    let u = w.spawn(spawn_ranged_ally(at(0, 0)));
    order(&mut w, u, vec![UnitCommand::MoveToPos(at(2001, 0))]);
    move_units(&mut w, 1);
    assert_eq!(unit(&w, u).position, at(150, 0));
}

#[test]
fn only_the_front_order_runs() {
    let mut w = world();
    let u = w.spawn(spawn_ranged_ally(at(0, 0)));
    order(
        &mut w,
        u,
        vec![UnitCommand::MoveToPos(at(0, 10_000)), UnitCommand::MoveToPos(at(10_000, 0))],
    );
    move_units(&mut w, 10);
    assert_eq!(unit(&w, u).position, at(0, 1500));
    assert_eq!(orders(&w, u).len(), 2);
}

#[test]
fn repeated_move_order_keeps_progress() {
    let mut w = world();
    let u = w.spawn(spawn_ranged_ally(at(0, 0)));
    let goal = at(30_000, 40_000);
    let mut last = distance_squared(at(0, 0), goal);
    for _ in 0..15 {
        order(&mut w, u, vec![UnitCommand::MoveToPos(goal)]);
        move_units(&mut w, 16);
        let d = distance_squared(unit(&w, u).position, goal);
        assert!(d < last);
        last = d;
    }
}

#[test]
fn attack_order_on_a_missing_target_is_abandoned() {
    let mut w = world();
    let u = w.spawn(spawn_ranged_ally(at(0, 0)));
    order(&mut w, u, vec![UnitCommand::AttackEntity(77)]);
    move_units(&mut w, 16);
    assert_eq!(orders(&w, u), vec![UnitCommand::Completed]);
    move_units(&mut w, 16);
    assert!(orders(&w, u).is_empty());
}

#[test]
fn attack_order_on_itself_is_abandoned() {
    let mut w = world();
    let u = w.spawn(spawn_ranged_ally(at(0, 0)));
    order(&mut w, u, vec![UnitCommand::AttackEntity(u)]);
    move_units(&mut w, 16);
    assert_eq!(orders(&w, u), vec![UnitCommand::Completed]);
}

#[test]
fn attack_order_closes_in_when_out_of_range() {
    let mut w = world();
    let u = w.spawn(spawn_ranged_ally(at(0, 0)));
    let t = w.spawn(spawn_melee_enemy(at(400_000, 0)));
    order(&mut w, u, vec![UnitCommand::AttackEntity(t)]);
    move_unit(&mut w, u, 100);
    assert_eq!(unit(&w, u).position, at(15_000, 0));
    assert_eq!(unit(&w, u).face.unwrap().face_to_pos, at(400_000, 0));
    assert_eq!(orders(&w, u), vec![UnitCommand::AttackEntity(t)]);
    assert_eq!(w.entities.len(), 2);
}

#[test]
fn attack_order_fires_in_range_and_restarts_the_countdown() {
    let mut w = world();
    let u = w.spawn(spawn_ranged_ally(at(0, 0)));
    let t = w.spawn(spawn_melee_enemy(at(300_000, 0)));
    order(&mut w, u, vec![UnitCommand::AttackEntity(t)]);
    move_unit(&mut w, u, 16);
    assert_eq!(unit(&w, u).position, at(0, 0));
    assert_eq!(w.entities.len(), 3);
    let b = unit(&w, 2);
    assert_eq!(b.position, at(0, 0));
    assert_eq!(
        b.bullet,
        Some(FlyingBullet { target: t, damage: 10, speed: 1000, shooter: u })
    );
    assert_eq!(b.face.unwrap().face_to_pos, at(300_000, 0));
    assert!(!unit(&w, u).attack.as_ref().unwrap().time_between_attacks.finished());
    assert_eq!(orders(&w, u), vec![UnitCommand::AttackEntity(t)]);
    move_unit(&mut w, u, 16);
    assert_eq!(w.entities.len(), 3);
}

#[test]
fn attack_order_ends_when_the_target_is_gone() {
    let mut w = world();
    let u = w.spawn(spawn_ranged_ally(at(0, 0)));
    let t = w.spawn(spawn_melee_enemy(at(300_000, 0)));
    order(&mut w, u, vec![UnitCommand::AttackEntity(t)]);
    move_unit(&mut w, u, 16);
    w.despawn(t);
    move_unit(&mut w, u, 16);
    assert_eq!(orders(&w, u), vec![UnitCommand::Completed]);
}

#[test]
fn spawn_bullet_carries_what_it_was_given() {
    let b = spawn_bullet(3, at(1, 2), 25, 9, at(5, 6));
    assert_eq!(b.position, at(1, 2));
    assert_eq!(b.bullet, Some(FlyingBullet { target: 9, damage: 25, speed: 1000, shooter: 3 }));
    assert_eq!(b.face.unwrap().face_to_pos, at(5, 6));
    assert!(b.health.is_none() && b.team.is_none() && b.commands.is_none());
}

#[test]
fn mine_order_without_mining_ability_is_abandoned() {
    let mut w = world();
    let u = w.spawn(spawn_ranged_ally(at(0, 0)));
    let n = w.spawn(spawn_asteroid(at(50_000, 0), at(1, 0), 0, 50));
    order(&mut w, u, vec![UnitCommand::MineEntity(n)]);
    move_unit(&mut w, u, 16);
    assert_eq!(orders(&w, u), vec![UnitCommand::Completed]);
}

#[test]
fn miner_closes_in_on_a_far_deposit() {
    let mut w = world();
    let u = w.spawn(spawn_miner_ally(at(0, 0)));
    let n = w.spawn(spawn_asteroid(at(500_000, 0), at(1, 0), 0, 50));
    order(&mut w, u, vec![UnitCommand::MineEntity(n)]);
    mine(&mut w, u, 1000);
    assert_eq!(unit(&w, u).position, at(150_000, 0));
    assert_eq!(unit(&w, u).mining.as_ref().unwrap().current_carry, 0);
    assert_eq!(unit(&w, n).mineable.unwrap().amount, 50);
    assert_eq!(unit(&w, u).face.unwrap().face_to_pos, at(500_000, 0));
}

#[test]
fn miner_takes_one_unit_per_countdown() {
    let mut w = world();
    let u = w.spawn(spawn_miner_ally(at(0, 0)));
    let n = w.spawn(spawn_asteroid(at(100_000, 0), at(1, 0), 0, 50));
    order(&mut w, u, vec![UnitCommand::MineEntity(n)]);
    mine(&mut w, u, 249);
    assert_eq!(unit(&w, u).mining.as_ref().unwrap().current_carry, 0);
    mine(&mut w, u, 1);
    assert_eq!(unit(&w, u).mining.as_ref().unwrap().current_carry, 1);
    assert_eq!(unit(&w, n).mineable.unwrap().amount, 49);
    assert_eq!(unit(&w, u).position, at(0, 0));
    mine(&mut w, u, 100);
    assert_eq!(unit(&w, u).mining.as_ref().unwrap().current_carry, 1);
    mine(&mut w, u, 150);
    assert_eq!(unit(&w, u).mining.as_ref().unwrap().current_carry, 2);
    assert_eq!(unit(&w, n).mineable.unwrap().amount, 48);
}

#[test]
fn miner_between_the_two_ranges_mines_while_it_closes_in() {
    let mut w = world();
    let u = w.spawn(spawn_miner_ally(at(0, 0)));
    let n = w.spawn(spawn_asteroid(at(120_000, 0), at(1, 0), 0, 50));
    order(&mut w, u, vec![UnitCommand::MineEntity(n)]);
    mine(&mut w, u, 250);
    assert_eq!(unit(&w, u).position, at(37_500, 0));
    assert_eq!(unit(&w, u).mining.as_ref().unwrap().current_carry, 1);
}

#[test]
fn miner_at_the_mining_range_does_not_mine() {
    let mut w = world();
    let u = w.spawn(spawn_miner_ally(at(0, 0)));
    let n = w.spawn(spawn_asteroid(at(130_000, 0), at(1, 0), 0, 50));
    order(&mut w, u, vec![UnitCommand::MineEntity(n)]);
    mine(&mut w, u, 250);
    assert_eq!(unit(&w, u).mining.as_ref().unwrap().current_carry, 0);
    assert_eq!(unit(&w, n).mineable.unwrap().amount, 50);
}

#[test]
fn miner_takes_nothing_from_an_empty_deposit() {
    let mut w = world();
    let u = w.spawn(spawn_miner_ally(at(0, 0)));
    let n = w.spawn(spawn_asteroid(at(100_000, 0), at(1, 0), 0, 1));
    order(&mut w, u, vec![UnitCommand::MineEntity(n)]);
    mine(&mut w, u, 250);
    assert_eq!(unit(&w, n).mineable.unwrap().amount, 0);
    mine(&mut w, u, 250);
    mine(&mut w, u, 250);
    assert_eq!(unit(&w, n).mineable.unwrap().amount, 0);
    assert_eq!(unit(&w, u).mining.as_ref().unwrap().current_carry, 1);
}

#[test]
fn full_miner_returns_and_remembers_the_deposit() {
    let mut w = world();
    let d = w.spawn(spawn_mother_ship(at(0, -100_000)));
    let u = w.spawn(spawn_miner_ally(at(0, 0)));
    let n = w.spawn(spawn_asteroid(at(100_000, 0), at(1, 0), 0, 50));
    w.entities[u].as_mut().unwrap().mining.as_mut().unwrap().current_carry = 10;
    order(&mut w, u, vec![UnitCommand::MineEntity(n)]);
    move_unit(&mut w, u, 16);
    assert_eq!(orders(&w, u), vec![UnitCommand::ReturnCargoToUnit(d, Some(n))]);
    assert_eq!(unit(&w, n).mineable.unwrap().amount, 50);
}

#[test]
fn miner_whose_deposit_is_gone_returns_what_it_carries() {
    let mut w = world();
    let d = w.spawn(spawn_mother_ship(at(0, -100_000)));
    let u = w.spawn(spawn_miner_ally(at(0, 0)));
    w.entities[u].as_mut().unwrap().mining.as_mut().unwrap().current_carry = 3;
    order(&mut w, u, vec![UnitCommand::MineEntity(42)]);
    move_unit(&mut w, u, 16);
    assert_eq!(orders(&w, u), vec![UnitCommand::ReturnCargoToUnit(d, None)]);
}

#[test]
fn miner_without_a_depot_keeps_its_order() {
    let mut w = world();
    let u = w.spawn(spawn_miner_ally(at(0, 0)));
    order(&mut w, u, vec![UnitCommand::MineEntity(42)]);
    move_unit(&mut w, u, 16);
    assert_eq!(orders(&w, u), vec![UnitCommand::MineEntity(42)]);
}

#[test]
fn return_order_without_depot_is_abandoned() {
    let mut w = world();
    let u = w.spawn(spawn_miner_ally(at(0, 0)));
    order(&mut w, u, vec![UnitCommand::ReturnCargoToUnit(9, None)]);
    move_unit(&mut w, u, 16);
    assert_eq!(orders(&w, u), vec![UnitCommand::Completed]);
}

#[test]
fn return_order_moves_toward_a_far_depot() {
    let mut w = world();
    let d = w.spawn(spawn_mother_ship(at(0, -100_000)));
    let u = w.spawn(spawn_miner_ally(at(0, 0)));
    w.entities[u].as_mut().unwrap().mining.as_mut().unwrap().current_carry = 4;
    order(&mut w, u, vec![UnitCommand::ReturnCargoToUnit(d, None)]);
    move_unit(&mut w, u, 100);
    assert_eq!(unit(&w, u).position, at(0, -15_000));
    assert_eq!(w.minerals.mineral, 50);
    assert_eq!(unit(&w, u).mining.as_ref().unwrap().current_carry, 4);
}

#[test]
fn return_order_deposits_all_cargo_at_once() {
    let mut w = world();
    let d = w.spawn(spawn_mother_ship(at(0, -40_000)));
    let u = w.spawn(spawn_miner_ally(at(0, 0)));
    w.entities[u].as_mut().unwrap().mining.as_mut().unwrap().current_carry = 7;
    order(&mut w, u, vec![UnitCommand::ReturnCargoToUnit(d, None)]);
    move_unit(&mut w, u, 16);
    assert_eq!(w.minerals.mineral, 57);
    assert_eq!(unit(&w, u).mining.as_ref().unwrap().current_carry, 0);
    assert_eq!(orders(&w, u), vec![UnitCommand::Completed]);
    assert_eq!(unit(&w, u).position, at(0, 0));
}

#[test]
fn stockpile_stops_at_its_largest_amount() {
    let mut w = world();
    let d = w.spawn(spawn_mother_ship(at(0, 0)));
    let u = w.spawn(spawn_miner_ally(at(0, 0)));
    w.minerals.mineral = u64::MAX - 3;
    w.entities[u].as_mut().unwrap().mining.as_mut().unwrap().current_carry = 7;
    order(&mut w, u, vec![UnitCommand::ReturnCargoToUnit(d, None)]);
    move_unit(&mut w, u, 16);
    assert_eq!(w.minerals.mineral, u64::MAX);
}

#[test]
fn round_trip_resumes_mining_the_same_deposit() {
    let mut w = world();
    let d = w.spawn(spawn_mother_ship(at(0, 0)));
    let u = w.spawn(spawn_miner_ally(at(0, 30_000)));
    let n = w.spawn(spawn_asteroid(at(0, 100_000), at(1, 0), 0, 50));
    w.entities[u].as_mut().unwrap().mining.as_mut().unwrap().current_carry = 10;
    order(&mut w, u, vec![UnitCommand::ReturnCargoToUnit(d, Some(n))]);
    move_units(&mut w, 16);
    assert_eq!(w.minerals.mineral, 60);
    assert_eq!(unit(&w, u).mining.as_ref().unwrap().current_carry, 0);
    assert_eq!(orders(&w, u), vec![UnitCommand::MineEntity(n)]);
    move_units(&mut w, 16);
    assert_eq!(orders(&w, u), vec![UnitCommand::MineEntity(n)]);
}

#[test]
fn round_trip_ends_idle_when_the_deposit_is_gone() {
    let mut w = world();
    let d = w.spawn(spawn_mother_ship(at(0, 0)));
    let u = w.spawn(spawn_miner_ally(at(0, 30_000)));
    let n = w.spawn(spawn_asteroid(at(0, 100_000), at(1, 0), 0, 50));
    w.entities[u].as_mut().unwrap().mining.as_mut().unwrap().current_carry = 10;
    order(&mut w, u, vec![UnitCommand::ReturnCargoToUnit(d, Some(n))]);
    w.despawn(n);
    move_units(&mut w, 16);
    assert_eq!(orders(&w, u), vec![UnitCommand::MineEntity(n)]);
    move_units(&mut w, 16);
    assert_eq!(orders(&w, u), vec![UnitCommand::ReturnCargoToUnit(d, None)]);
    move_units(&mut w, 16);
    assert_eq!(orders(&w, u), vec![UnitCommand::Completed]);
    move_units(&mut w, 16);
    assert!(orders(&w, u).is_empty());
    assert_eq!(w.minerals.mineral, 60);
}

#[test]
fn cargo_and_deposit_stay_in_range_over_a_long_shift() {
    let mut w = world();
    let _d = w.spawn(spawn_mother_ship(at(0, 0)));
    let u = w.spawn(spawn_miner_ally(at(0, 60_000)));
    let n = w.spawn(spawn_asteroid(at(0, 160_000), at(1, 0), 0, 23));
    order(&mut w, u, vec![UnitCommand::MineEntity(n)]);
    let mut last = 23;
    for _ in 0..2000 {
        tick_mining_timers(&mut w, 50);
        move_units(&mut w, 50);
        let m = unit(&w, u).mining.as_ref().unwrap();
        assert!(m.current_carry <= m.max_carry);
        let left = unit(&w, n).mineable.unwrap().amount;
        assert!(left <= last);
        last = left;
    }
    assert_eq!(last, 0);
    assert_eq!(w.minerals.mineral + unit(&w, u).mining.as_ref().unwrap().current_carry as u64, 73);
}

#[test]
fn entity_without_speed_or_attack_takes_no_orders() {
    let mut w = world();
    let mut e = spawn_ranged_ally(at(0, 0));
    e.velocity = None;
    let u = w.spawn(e);
    order(&mut w, u, vec![UnitCommand::MoveToPos(at(50_000, 0))]);
    move_units(&mut w, 16);
    assert_eq!(unit(&w, u).position, at(0, 0));
    assert_eq!(orders(&w, u).len(), 1);
}

#[test]
fn move_unit_on_a_dangling_handle_does_nothing() {
    let mut w = world();
    let u = w.spawn(spawn_ranged_ally(at(0, 0)));
    w.despawn(u);
    move_unit(&mut w, u, 16);
    move_unit(&mut w, 500, 16);
    assert_eq!(w.entities.len(), 1);
    assert!(w.get(u).is_none());
}

#[test]
fn mining_countdown_runs_whatever_the_miner_does() {
    let mut w = world();
    let u = w.spawn(spawn_miner_ally(at(0, 0)));
    let r = w.spawn(spawn_ranged_ally(at(0, 0)));
    tick_mining_timers(&mut w, 100);
    let m = unit(&w, u).mining.as_ref().unwrap();
    assert_eq!(m.time_between_mine.elapsed_millis(), 100);
    assert!(!m.time_between_mine.finished());
    tick_mining_timers(&mut w, 150);
    assert!(unit(&w, u).mining.as_ref().unwrap().time_between_mine.finished());
    assert!(unit(&w, r).mining.is_none());
}

#[test]
fn order_alone_does_not_run_the_mining_countdown() {
    let mut w = world();
    let u = w.spawn(spawn_miner_ally(at(0, 0)));
    let n = w.spawn(spawn_asteroid(at(100_000, 0), at(1, 0), 0, 50));
    order(&mut w, u, vec![UnitCommand::MineEntity(n)]);
    move_unit(&mut w, u, 1000);
    assert_eq!(unit(&w, u).mining.as_ref().unwrap().current_carry, 0);
    assert_eq!(unit(&w, u).mining.as_ref().unwrap().time_between_mine.elapsed_millis(), 0);
}

#[test]
fn long_tick_ends_at_the_goal_and_not_beyond() {
    let mut w = world();
    let u = w.spawn(spawn_ranged_ally(at(0, 0)));
    order(&mut w, u, vec![UnitCommand::MoveToPos(at(3000, 0))]);
    move_units(&mut w, 1000);
    assert_eq!(unit(&w, u).position, at(3000, 0));
    move_units(&mut w, 1000);
    assert_eq!(orders(&w, u), vec![UnitCommand::Completed]);
    assert_eq!(unit(&w, u).position, at(3000, 0));
}

#[test]
fn distance_to_the_goal_never_grows_whatever_the_tick() {
    for dt in [0u32, 1, 7, 16, 33, 250, 1000, 60_000, u32::MAX] {
        let mut w = world();
        let u = w.spawn(spawn_ranged_ally(at(-12_345, 6789)));
        let goal = at(40_000, -25_000);
        order(&mut w, u, vec![UnitCommand::MoveToPos(goal)]);
        let mut last = distance_squared(unit(&w, u).position, goal);
        for _ in 0..50 {
            move_units(&mut w, dt);
            let d = distance_squared(unit(&w, u).position, goal);
            assert!(d <= last);
            if dt > 0 && last > 4_000_000 {
                assert!(d < last);
            }
            last = d;
        }
    }
}
