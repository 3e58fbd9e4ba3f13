use rts_sim::geometry::Position;
use rts_sim::production::{
    build_requested_units, complete_build, handle_add_to_build_queue, price, spawn_built_unit,
    BuildOrder, BuildQueue,
};
use rts_sim::roster::{spawn_mother_ship, spawn_ranged_ally};
use rts_sim::units::Team;
use rts_sim::world::{MapBoundaries, MineralResources, World};

fn at(x: i32, y: i32) -> Position {
    Position { x, y }
}

fn world() -> World {
    World::new(MapBoundaries::default())
}

#[test]
fn prices() {
    assert_eq!(price(BuildOrder::Miner(None)), 10);
    assert_eq!(price(BuildOrder::Melee(Some(4))), 30);
    assert_eq!(price(BuildOrder::Ranged(None)), 60);
}

#[test]
fn third_order_is_rejected_for_want_of_funds() {
    let mut q = BuildQueue::default();
    let mut m = MineralResources { mineral: 25 };
    assert!(q.request(&mut m, BuildOrder::Miner(None)));
    assert!(q.request(&mut m, BuildOrder::Miner(None)));
    assert_eq!(m.mineral, 5);
    assert!(!q.request(&mut m, BuildOrder::Miner(None)));
    assert_eq!(m.mineral, 5);
    assert_eq!(q.queue.len(), 2);
}

#[test]
fn order_is_rejected_when_the_queue_is_full() {
    let mut q = BuildQueue::default();
    let mut m = MineralResources { mineral: 1000 };
    for i in 0..5 {
        assert!(q.request(&mut m, BuildOrder::Miner(Some(i))));
    }
    assert!(!q.can_accept(m.mineral, BuildOrder::Miner(None)));
    assert!(!q.request(&mut m, BuildOrder::Miner(None)));
    assert_eq!(q.queue.len(), 5);
    assert_eq!(m.mineral, 950);
}

#[test]
fn order_for_exactly_the_stockpile_is_accepted() {
    let mut q = BuildQueue::default();
    let mut m = MineralResources { mineral: 60 };
    assert!(q.request(&mut m, BuildOrder::Ranged(None)));
    assert_eq!(m.mineral, 0);
    assert!(!q.request(&mut m, BuildOrder::Miner(None)));
}

#[test]
fn keys_are_handled_in_the_order_miner_melee_ranged() {
    let mut q = BuildQueue::default();
    let mut m = MineralResources { mineral: 95 };
    handle_add_to_build_queue(&mut q, &mut m, true, true, true);
    let kinds: Vec<BuildOrder> = q.queue.iter().copied().collect();
    assert_eq!(kinds, vec![BuildOrder::Miner(None), BuildOrder::Melee(None)]);
    assert_eq!(m.mineral, 55);
    handle_add_to_build_queue(&mut q, &mut m, false, false, false);
    assert_eq!(q.queue.len(), 2);
}

#[test]
fn keys_respect_the_capacity_one_by_one() {
    let mut q = BuildQueue::default();
    q.max_request = 1;
    let mut m = MineralResources { mineral: 500 };
    handle_add_to_build_queue(&mut q, &mut m, true, true, true);
    assert_eq!(q.queue.len(), 1);
    assert_eq!(m.mineral, 490);
}

#[test]
fn countdown_runs_only_while_orders_wait() {
    let mut w = world();
    w.spawn(spawn_mother_ship(at(0, -100_000)));
    let mut q = BuildQueue::default();
    assert_eq!(build_requested_units(&mut w, &mut q, 4000), None);
    assert_eq!(q.build_time.elapsed_millis(), 0);
    let mut m = MineralResources { mineral: 100 };
    q.request(&mut m, BuildOrder::Miner(Some(7)));
    assert_eq!(build_requested_units(&mut w, &mut q, 4000), None);
    assert_eq!(q.build_time.elapsed_millis(), 4000);
    assert_eq!(w.entities.len(), 1);
}

#[test]
fn one_unit_is_finished_per_countdown() {
    let mut w = world();
    w.spawn(spawn_mother_ship(at(0, -100_000)));
    let mut q = BuildQueue::default();
    let mut m = MineralResources { mineral: 100 };
    q.request(&mut m, BuildOrder::Miner(Some(7)));
    q.request(&mut m, BuildOrder::Melee(Some(8)));
    assert_eq!(build_requested_units(&mut w, &mut q, 60_000), Some(BuildOrder::Miner(Some(7))));
    assert_eq!(q.queue.len(), 1);
    assert_eq!(q.build_time.elapsed_millis(), 0);
    assert_eq!(w.entities.len(), 2);
    let e = w.get(1).unwrap();
    assert!(e.mining.is_some());
    assert_eq!(e.team, Some(Team(0)));
    assert_eq!(e.position.y, -40_000);
    assert!(-30_000 <= e.position.x && e.position.x < 30_000);
    assert_eq!(build_requested_units(&mut w, &mut q, 4999), None);
    assert_eq!(build_requested_units(&mut w, &mut q, 1), Some(BuildOrder::Melee(Some(8))));
    assert!(q.queue.is_empty());
    assert_eq!(w.entities.len(), 3);
}

#[test]
fn jitter_stays_in_its_range() {
    for _ in 0..100 {
        let mut w = world();
        w.spawn(spawn_mother_ship(at(1000, 0)));
        let mut q = BuildQueue::default();
        let mut m = MineralResources { mineral: 100 };
        q.request(&mut m, BuildOrder::Ranged(None));
        build_requested_units(&mut w, &mut q, 5000);
        let p = w.get(1).unwrap().position;
        assert!(-29_000 <= p.x && p.x < 31_000);
        assert_eq!(p.y, 60_000);
    }
}

#[test]
fn without_a_depot_the_order_keeps_waiting() {
    let mut w = world();
    w.spawn(spawn_ranged_ally(at(0, 0)));
    let mut q = BuildQueue::default();
    let mut m = MineralResources { mineral: 100 };
    q.request(&mut m, BuildOrder::Miner(None));
    assert_eq!(build_requested_units(&mut w, &mut q, 5000), None);
    assert_eq!(q.queue.len(), 1);
    assert_eq!(q.build_time.elapsed_millis(), 0);
    assert_eq!(w.entities.len(), 1);
}

#[test]
fn complete_build_puts_the_unit_above_the_depot() {
    let mut w = world();
    w.spawn(spawn_mother_ship(at(1000, 2000)));
    complete_build(&mut w, BuildOrder::Melee(None), -30_000);
    let e = w.get(1).unwrap();
    assert_eq!(e.position, at(-29_000, 62_000));
    assert_eq!(e.velocity.unwrap().0, 250);
    complete_build(&mut world(), BuildOrder::Melee(None), 0);
}

#[test]
fn built_units_are_of_the_ordered_kind() {
    let miner = spawn_built_unit(BuildOrder::Miner(None), at(0, 0));
    let melee = spawn_built_unit(BuildOrder::Melee(None), at(0, 0));
    let ranged = spawn_built_unit(BuildOrder::Ranged(None), at(0, 0));
    assert!(miner.mining.is_some());
    assert_eq!(melee.health.unwrap().max_health, 200);
    assert_eq!(ranged.attack.as_ref().unwrap().attack_range, 300_000);
}
