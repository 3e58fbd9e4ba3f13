//! The command engine: every tick each unit carries out the order at the
//! front of its queue, and nothing else. The mining countdowns run beside
//! it, whatever the miners are doing.

use crate::geometry::dist_sq;
use crate::geometry::farther_than;
use crate::geometry::nearer_than;
use crate::geometry::step_len;
use crate::geometry::step_length;
use crate::geometry::step_toward;
use crate::geometry::stepped_toward;
use crate::geometry::Position;
use crate::units::Entity;
use crate::units::EntityId;
use crate::units::EntityView;
use crate::units::FaceMovementDirection;
use crate::units::FlyingBullet;
use crate::units::Mineable;
use crate::units::UnitCommand;
use crate::world::slot_view;
use crate::world::World;
use crate::world::WorldView;
use vstd::prelude::*;

verus! {

/// A unit closer than this to the point it was sent to has arrived.
pub const ARRIVAL_EPSILON: u32 = 2_000;

/// A unit closer than this to the depot unloads.
pub const DEPOT_RANGE: u32 = 40_000;

/// The speed of a projectile.
pub const BULLET_SPEED: u32 = 1_000;

/// Whether the slot holds a unit that the command engine drives: one with a
/// speed, an attack ability and at least one order.
pub open spec fn commanded(slot: Option<EntityView>) -> bool {
    &&& slot matches Some(e)
    &&& e.velocity is Some
    &&& e.attack is Some
    &&& e.busy()
}

/// The unit after it has moved toward `target` for `dt_ms` milliseconds.
pub open spec fn moved(e: EntityView, target: Position, dt_ms: u32) -> EntityView {
    e.at(stepped_toward(e.position, target, step_length(e.speed(), dt_ms)))
}

/// The projectile that `shooter`, standing at `from`, fires at `target`.
pub open spec fn bullet(
    shooter: EntityId,
    from: Position,
    damage: u32,
    target: EntityId,
    target_pos: Position,
) -> EntityView {
    EntityView {
        face: Some(FaceMovementDirection { face_to_pos: target_pos }),
        bullet: Some(FlyingBullet { target, damage, speed: BULLET_SPEED, shooter }),
        ..EntityView::bare(from)
    }
}

/// The stockpile after `cargo` was added. It stops at the largest amount it
/// can hold.
pub open spec fn deposited(stock: u64, cargo: u32) -> u64 {
    if stock + cargo > u64::MAX {
        u64::MAX
    } else {
        (stock + cargo) as u64
    }
}

/// `MoveToPos(p)`: farther than the arrival distance from `p`, the unit
/// moves toward `p` and faces it; otherwise the order is completed.
pub open spec fn step_move_to(w: WorldView, id: EntityId, p: Position, dt_ms: u32) -> WorldView {
    let e = w.entities[id as int]->0;
    if dist_sq(e.position, p) > ARRIVAL_EPSILON * ARRIVAL_EPSILON {
        w.with_entity(id, moved(e, p, dt_ms).facing(p))
    } else {
        w.with_entity(id, e.with_front(UnitCommand::Completed))
    }
}

/// `AttackEntity(target)`: with the target gone the order is completed.
/// Otherwise the unit faces the target; out of range it closes in; in range
/// it fires when its countdown has finished, and starts the countdown over.
/// The order stays until the target is gone.
pub open spec fn step_attack(w: WorldView, id: EntityId, target: EntityId, dt_ms: u32) -> WorldView {
    let e = w.entities[id as int]->0;
    match w.other_position(id, target) {
        None => w.with_entity(id, e.with_front(UnitCommand::Completed)),
        Some(tp) => {
            let a = e.attack->0;
            if dist_sq(e.position, tp) > a.attack_range * a.attack_range {
                w.with_entity(id, moved(e.facing(tp), tp, dt_ms))
            } else if a.time_between_attacks.finished {
                w.with_entity(id, e.facing(tp).with_attack(a.fired())).spawned(
                    bullet(id, e.position, a.attack_amount, target, tp),
                )
            } else {
                w.with_entity(id, e.facing(tp))
            }
        },
    }
}

/// The unit sent to `depot`: its active order becomes a return to the depot
/// that remembers `resume`. Without a depot the order stays.
pub open spec fn homeward(e: EntityView, depot: Option<EntityId>, resume: Option<EntityId>) -> EntityView {
    match depot {
        Some(d) => e.with_front(UnitCommand::ReturnCargoToUnit(d, resume)),
        None => e,
    }
}

/// The unit sent home, to the depot of the world.
pub open spec fn sent_home(w: WorldView, e: EntityView, resume: Option<EntityId>) -> EntityView {
    homeward(e, w.depot(), resume)
}

/// `MineEntity(node)`: a unit that cannot mine completes the order. With
/// the node gone the unit returns what it carries; with full cargo it
/// returns and remembers the node. Otherwise it faces the node, closes in
/// while beyond its approach range, and, within its mining range, with the
/// mining countdown finished and the node not empty, takes one unit from the
/// node and starts the countdown over.
pub open spec fn step_mine(w: WorldView, id: EntityId, node: EntityId, dt_ms: u32) -> WorldView {
    let e = w.entities[id as int]->0;
    if e.mining is None {
        w.with_entity(id, e.with_front(UnitCommand::Completed))
    } else {
        let m = e.mining->0;
        if w.get(node) matches Some(n) && n.mineable is Some {
            let n = w.get(node)->0;
            if m.current_carry < m.max_carry {
                match w.other_position(id, node) {
                    None => w,
                    Some(np) => {
                        let e2 = e.facing(np);
                        let e3 = if dist_sq(e.position, np) > m.approach_range * m.approach_range {
                            moved(e2, np, dt_ms)
                        } else {
                            e2
                        };
                        if dist_sq(e.position, np) < m.mine_range * m.mine_range
                            && m.time_between_mine.finished && n.mineable->0.amount > 0 {
                            w.with_entity(id, e3.with_mining(m.mined())).with_entity(
                                node,
                                EntityView {
                                    mineable: Some(
                                        Mineable { amount: (n.mineable->0.amount - 1) as u32 },
                                    ),
                                    ..n
                                },
                            )
                        } else {
                            w.with_entity(id, e3)
                        }
                    },
                }
            } else {
                w.with_entity(id, sent_home(w, e, Some(node)))
            }
        } else {
            w.with_entity(id, sent_home(w, e, None))
        }
    }
}

/// `ReturnCargoToUnit(depot, resume)`: with the depot gone the order is
/// completed. Otherwise the unit faces the depot and closes in while beyond
/// the depot range. Arrived, a miner adds all it carries to the stockpile,
/// carries nothing, and goes back to mine `resume` if there is one; else the
/// order is completed.
pub open spec fn step_return(
    w: WorldView,
    id: EntityId,
    depot: EntityId,
    resume: Option<EntityId>,
    dt_ms: u32,
) -> WorldView {
    let e = w.entities[id as int]->0;
    match w.other_position(id, depot) {
        None => w.with_entity(id, e.with_front(UnitCommand::Completed)),
        Some(dp) => {
            let e1 = e.facing(dp);
            if dist_sq(e.position, dp) > DEPOT_RANGE * DEPOT_RANGE {
                w.with_entity(id, moved(e1, dp, dt_ms))
            } else if e.mining is Some {
                let m = e.mining->0;
                let next = match resume {
                    Some(node) => UnitCommand::MineEntity(node),
                    None => UnitCommand::Completed,
                };
                WorldView {
                    minerals: deposited(w.minerals, m.current_carry),
                    ..w.with_entity(id, e1.with_mining(m.unloaded()).with_front(next))
                }
            } else {
                w.with_entity(id, e1.with_front(UnitCommand::Completed))
            }
        },
    }
}

/// One tick of the command engine for the entity behind `id`: its active
/// order runs once. Anything that is not a commanded unit is left alone.
pub open spec fn step_unit(w: WorldView, id: EntityId, dt_ms: u32) -> WorldView {
    if commanded(w.get(id)) {
        let e = w.entities[id as int]->0;
        match e.commands->0[0] {
            UnitCommand::MoveToPos(p) => step_move_to(w, id, p, dt_ms),
            UnitCommand::AttackEntity(target) => step_attack(w, id, target, dt_ms),
            UnitCommand::MineEntity(node) => step_mine(w, id, node, dt_ms),
            UnitCommand::ReturnCargoToUnit(depot, resume) => step_return(
                w,
                id,
                depot,
                resume,
                dt_ms,
            ),
            UnitCommand::Completed => w.with_entity(id, e.popped()),
        }
    } else {
        w
    }
}

/// One tick of the command engine for the entities behind the handles
/// `from..to`, in the order of their handles.
pub open spec fn step_units(w: WorldView, from: int, to: int, dt_ms: u32) -> WorldView
    decreases to - from,
{
    if from >= to || from < 0 || from > usize::MAX {
        w
    } else {
        step_units(step_unit(w, from as usize, dt_ms), from + 1, to, dt_ms)
    }
}

/// Moves the unit toward `target` for `dt_ms` milliseconds.
fn advance_unit(e: &mut Entity, target: Position, dt_ms: u32)
    requires
        old(e).velocity is Some,
    ensures
        final(e)@ == moved(old(e)@, target, dt_ms),
{
    let speed = match e.velocity {
        Some(v) => v.0,
        None => 0,
    };
    e.position = step_toward(e.position, target, step_len(speed, dt_ms));
}

/// Runs a move order once.
fn run_move_to(world: &mut World, id: EntityId, p: Position, dt_ms: u32)
    requires
        commanded(old(world)@.get(id)),
    ensures
        final(world)@ == step_move_to(old(world)@, id, p, dt_ms),
{
    let mut e = world.take(id);
    if farther_than(e.position, p, ARRIVAL_EPSILON) {
        advance_unit(&mut e, p, dt_ms);
        e.turn_to(p);
    } else {
        e.set_front(UnitCommand::Completed);
    }
    world.put(id, e);
    proof {
        World::lemma_put_back(*old(world), *world, id, e);
    }
}

/// A slot after `dt_ms` milliseconds of its mining countdown.
pub open spec fn mining_ticked(slot: Option<EntityView>, dt_ms: u32) -> Option<EntityView> {
    match slot {
        Some(e) => Some(
            match e.mining {
                Some(m) => e.with_mining(m.ticked(dt_ms as nat)),
                None => e,
            },
        ),
        None => None,
    }
}

/// The world after every mining countdown ran for `dt_ms` milliseconds,
/// whatever its unit was doing.
pub open spec fn mining_timers_ticked(w: WorldView, dt_ms: u32) -> WorldView {
    WorldView {
        entities: Seq::new(w.entities.len(), |i: int| mining_ticked(w.entities[i], dt_ms)),
        ..w
    }
}

/// Lets every mining countdown run for `dt_ms` milliseconds.
pub fn tick_mining_timers(world: &mut World, dt_ms: u32)
    ensures
        final(world)@ == mining_timers_ticked(old(world)@, dt_ms),
{
    let n = world.entities.len();
    let mut i: usize = 0;
    while i < n
        invariant
            i <= n,
            n == old(world).entities.len(),
            n == world.entities.len(),
            world.minerals == old(world).minerals,
            world.boundaries == old(world).boundaries,
            world.damage_events == old(world).damage_events,
            forall|j: int|
                0 <= j < i ==> slot_view(#[trigger] world.entities[j]) == mining_ticked(
                    slot_view(old(world).entities[j]),
                    dt_ms,
                ),
            forall|j: int| i <= j < n ==> #[trigger] world.entities[j] == old(world).entities[j],
        decreases n - i,
    {
        match &mut world.entities[i] {
            Some(e) => {
                match &mut e.mining {
                    Some(m) => {
                        m.time_between_mine.tick(dt_ms);
                    },
                    None => {},
                }
            },
            None => {},
        }
        i += 1;
    }
    assert(world@.entities =~= mining_timers_ticked(old(world)@, dt_ms).entities);
}

/// Builds the projectile that `shooter`, standing at `from`, fires at
/// `target`.
pub fn spawn_bullet(
    shooter: EntityId,
    from: Position,
    damage: u32,
    target: EntityId,
    target_pos: Position,
) -> (b: Entity)
    ensures
        b@ == bullet(shooter, from, damage, target, target_pos),
{
    let mut b = Entity::bare(from);
    b.face = Some(FaceMovementDirection { face_to_pos: target_pos });
    b.bullet = Some(FlyingBullet { target, damage, speed: BULLET_SPEED, shooter });
    b
}

/// Runs an attack order once.
fn run_attack(world: &mut World, id: EntityId, target: EntityId, dt_ms: u32)
    requires
        commanded(old(world)@.get(id)),
    ensures
        final(world)@ == step_attack(old(world)@, id, target, dt_ms),
{
    let target_pos = world.other_position(id, target);
    let mut e = world.take(id);
    match target_pos {
        None => {
            e.set_front(UnitCommand::Completed);
            world.put(id, e);
            proof {
                World::lemma_put_back(*old(world), *world, id, e);
            }
        },
        Some(tp) => {
            e.turn_to(tp);
            let from = e.position;
            let (range, ready, damage) = match &e.attack {
                Some(a) => (a.attack_range, a.time_between_attacks.finished(), a.attack_amount),
                None => (0, false, 0),
            };
            if farther_than(from, tp, range) {
                advance_unit(&mut e, tp, dt_ms);
                world.put(id, e);
                proof {
                    World::lemma_put_back(*old(world), *world, id, e);
                }
            } else if ready {
                match &mut e.attack {
                    Some(a) => {
                        a.time_between_attacks.reset();
                    },
                    None => {},
                }
                world.put(id, e);
                proof {
                    World::lemma_put_back(*old(world), *world, id, e);
                }
                world.spawn(spawn_bullet(id, from, damage, target, tp));
            } else {
                world.put(id, e);
                proof {
                    World::lemma_put_back(*old(world), *world, id, e);
                }
            }
        },
    }
}

/// Sets what is left of the deposit behind `node`.
fn set_mineable(world: &mut World, node: EntityId, amount: u32)
    requires
        old(world)@.alive(node),
    ensures
        final(world)@ == old(world)@.with_entity(
            node,
            EntityView { mineable: Some(Mineable { amount }), ..old(world)@.entities[node as int]->0 },
        ),
{
    let mut n = world.take(node);
    n.mineable = Some(Mineable { amount });
    world.put(node, n);
    proof {
        World::lemma_put_back(*old(world), *world, node, n);
    }
}

/// Sends the unit home, if there is a depot.
fn send_home(e: &mut Entity, depot: Option<EntityId>, resume: Option<EntityId>)
    requires
        old(e)@.busy(),
    ensures
        final(e)@ == homeward(old(e)@, depot, resume),
{
    match depot {
        Some(d) => {
            e.set_front(UnitCommand::ReturnCargoToUnit(d, resume));
        },
        None => {},
    }
}

/// Runs a mining order once.
fn run_mine(world: &mut World, id: EntityId, node: EntityId, dt_ms: u32)
    requires
        commanded(old(world)@.get(id)),
    ensures
        final(world)@ == step_mine(old(world)@, id, node, dt_ms),
{
    let node_amount: Option<u32> = match world.get(node) {
        Some(n) => match n.mineable {
            Some(m) => Some(m.amount),
            None => None,
        },
        None => None,
    };
    let node_pos = world.other_position(id, node);
    let depot = world.depot();
    let mut e = world.take(id);
    let from = e.position;
    let mut mined: bool = false;
    match &mut e.mining {
        None => {
            e.set_front(UnitCommand::Completed);
        },
        Some(m) => {
            let carry = m.current_carry;
            let max_carry = m.max_carry;
            let approach = m.approach_range;
            let reach = m.mine_range;
            let ready = m.time_between_mine.finished();
            match node_amount {
                Some(amount) => {
                    if carry < max_carry {
                        match node_pos {
                            None => {},
                            Some(np) => {
                                if nearer_than(from, np, reach) && ready && amount > 0 {
                                    m.time_between_mine.reset();
                                    m.current_carry = carry + 1;
                                    mined = true;
                                }
                                e.turn_to(np);
                                if farther_than(from, np, approach) {
                                    advance_unit(&mut e, np, dt_ms);
                                }
                            },
                        }
                    } else {
                        send_home(&mut e, depot, Some(node));
                    }
                },
                None => {
                    send_home(&mut e, depot, None);
                },
            }
        },
    }
    world.put(id, e);
    proof {
        World::lemma_put_back(*old(world), *world, id, e);
        assert(old(world)@.entities.update(id as int, old(world)@.entities[id as int])
            =~= old(world)@.entities);
    }
    if mined {
        match node_amount {
            Some(amount) => {
                set_mineable(world, node, (amount - 1) as u32);
            },
            None => {},
        }
    }
}

/// Runs an order to return cargo once.
fn run_return(
    world: &mut World,
    id: EntityId,
    depot: EntityId,
    resume: Option<EntityId>,
    dt_ms: u32,
)
    requires
        commanded(old(world)@.get(id)),
    ensures
        final(world)@ == step_return(old(world)@, id, depot, resume, dt_ms),
{
    let depot_pos = world.other_position(id, depot);
    let mut e = world.take(id);
    let mut cargo: u32 = 0;
    match depot_pos {
        None => {
            e.set_front(UnitCommand::Completed);
        },
        Some(dp) => {
            e.turn_to(dp);
            if farther_than(e.position, dp, DEPOT_RANGE) {
                advance_unit(&mut e, dp, dt_ms);
            } else {
                match &mut e.mining {
                    Some(m) => {
                        cargo = m.current_carry;
                        m.current_carry = 0;
                        match resume {
                            Some(node) => {
                                e.set_front(UnitCommand::MineEntity(node));
                            },
                            None => {
                                e.set_front(UnitCommand::Completed);
                            },
                        }
                    },
                    None => {
                        e.set_front(UnitCommand::Completed);
                    },
                }
            }
        },
    }
    world.put(id, e);
    proof {
        World::lemma_put_back(*old(world), *world, id, e);
    }
    world.minerals.mineral = world.minerals.mineral.saturating_add(cargo as u64);
}

/// Runs the active order of the entity behind `id` once.
pub fn move_unit(world: &mut World, id: EntityId, dt_ms: u32)
    ensures
        final(world)@ == step_unit(old(world)@, id, dt_ms),
{
    let front = match world.get(id) {
        Some(e) => {
            if e.velocity.is_some() && e.attack.is_some() {
                e.front()
            } else {
                None
            }
        },
        None => None,
    };
    match front {
        None => {},
        Some(UnitCommand::MoveToPos(p)) => run_move_to(world, id, p, dt_ms),
        Some(UnitCommand::AttackEntity(target)) => run_attack(world, id, target, dt_ms),
        Some(UnitCommand::MineEntity(node)) => run_mine(world, id, node, dt_ms),
        Some(UnitCommand::ReturnCargoToUnit(depot, resume)) => run_return(
            world,
            id,
            depot,
            resume,
            dt_ms,
        ),
        Some(UnitCommand::Completed) => {
            let mut e = world.take(id);
            e.pop_front();
            world.put(id, e);
            proof {
                World::lemma_put_back(*old(world), *world, id, e);
            }
        },
    }
}

/// One tick of the command engine: every entity that stood in the world when
/// the tick began runs its active order once, in the order of the handles.
/// Projectiles fired during the tick wait for the next one.
pub fn move_units(world: &mut World, dt_ms: u32)
    ensures
        final(world)@ == step_units(old(world)@, 0, old(world)@.entities.len() as int, dt_ms),
{
    let n = world.entities.len();
    let mut i: usize = 0;
    while i < n
        invariant
            i <= n,
            n == old(world)@.entities.len(),
            step_units(world@, i as int, n as int, dt_ms) == step_units(
                old(world)@,
                0,
                n as int,
                dt_ms,
            ),
        decreases n - i,
    {
        move_unit(world, i, dt_ms);
        i += 1;
    }
}

} // verus!
