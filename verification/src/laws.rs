//! What holds of every world: the health and cargo limits, the progress of a
//! move, and the round trip of a miner.

use crate::brain::lemma_wave_member_position;
use crate::brain::lemma_wave_places;
use crate::brain::wave_member;
use crate::brain::wave_slot;
use crate::brain::wave_spawned;
use crate::brain::WavePayload;
use crate::combat::attack_timers_ticked;
use crate::combat::bullet_flown;
use crate::combat::bullets_flown;
use crate::combat::damage_resolved;
use crate::combat::damaged;
use crate::combat::dead_removed;
use crate::combat::hit;
use crate::combat::hits_resolved;
use crate::combat::picks_targets;
use crate::combat::pigs_roused;
use crate::combat::roused;
use crate::combat::sight_of;
use crate::geometry::cell_fits;
use crate::geometry::ceil_sqrt;
use crate::geometry::dist_sq;
use crate::geometry::grid_slot;
use crate::geometry::lemma_ceil_sqrt_least;
use crate::geometry::lemma_grid_is_a_lattice;
use crate::geometry::lemma_step_toward_approaches;
use crate::geometry::lemma_step_toward_gets_closer;
use crate::geometry::step_length;
use crate::geometry::GRID_SPACING;
use crate::geometry::Position;
use crate::materials::asteroids_deleted;
use crate::movement::commanded;
use crate::movement::deposited;
use crate::movement::mining_timers_ticked;
use crate::movement::sent_home;
use crate::movement::step_unit;
use crate::movement::step_units;
use crate::movement::ARRIVAL_EPSILON;
use crate::movement::DEPOT_RANGE;
use crate::orders::click_ordered;
use crate::orders::issued;
use crate::orders::order_for;
use crate::orders::orders_issued;
use crate::production::cost;
use crate::production::BuildOrder;
use crate::production::BuildQueueView;
use crate::orders::minable;
use crate::session::post_updated;
use crate::session::updated;
use crate::steering::all_drifted;
use crate::units::DamageEvent;
use crate::units::EntityId;
use crate::units::EntityView;
use crate::units::UnitCommand;
use crate::world::first_depot;
use crate::world::is_depot;
use crate::world::lemma_first_depot_is_first;
use crate::world::WorldView;
use vstd::prelude::*;

verus! {

/// Whether the slot is empty or holds an entity whose hit points do not
/// exceed their maximum.
pub open spec fn healthy(slot: Option<EntityView>) -> bool {
    slot matches Some(e) ==> (e.health matches Some(h) ==> h.current <= h.max_health)
}

/// Whether no entity of the world has more hit points than its maximum.
pub open spec fn all_healthy(w: WorldView) -> bool {
    forall|i: int| 0 <= i < w.entities.len() ==> healthy(#[trigger] w.entities[i])
}

/// Resolving one hit leaves the hit entity within its hit point limits,
/// whatever it had before, and touches the hit points of no other.
pub proof fn lemma_hit_keeps_health(w: WorldView, ev: DamageEvent)
    ensures
        hit(w, ev).entities.len() == w.entities.len(),
        hit(w, ev).damage_events == w.damage_events,
        w.get(ev.target) is Some ==> healthy(hit(w, ev).get(ev.target)),
        all_healthy(w) ==> all_healthy(hit(w, ev)),
{
    if w.get(ev.target) matches Some(e) && e.health is Some {
        let e = w.get(ev.target)->0;
        assert(damaged(e.health->0, ev.dmg_amount).current <= e.health->0.max_health);
    }
}

/// Resolving any hits keeps every entity within its hit point limits.
pub proof fn lemma_hits_keep_health(w: WorldView, events: Seq<DamageEvent>, from: int)
    requires
        all_healthy(w),
    ensures
        all_healthy(hits_resolved(w, events, from)),
        hits_resolved(w, events, from).entities.len() == w.entities.len(),
    decreases events.len() - from,
{
    if 0 <= from < events.len() {
        lemma_hit_keeps_health(w, events[from]);
        lemma_hits_keep_health(hit(w, events[from]), events, from + 1);
    }
}

/// Hit points stay between zero and their maximum through a pass of damage
/// resolution, and so through any number of passes.
pub proof fn law_health_stays_in_range(w: WorldView)
    requires
        all_healthy(w),
    ensures
        all_healthy(damage_resolved(w)),
        all_healthy(post_updated(w)),
{
    lemma_hits_keep_health(w, w.damage_events, 0);
    let a = damage_resolved(w);
    assert(all_healthy(a));
    let b = dead_removed(a);
    assert forall|i: int| 0 <= i < b.entities.len() implies healthy(#[trigger] b.entities[i]) by {
        assert(healthy(a.entities[i]));
    }
    let c = asteroids_deleted(b);
    assert forall|i: int| 0 <= i < c.entities.len() implies healthy(#[trigger] c.entities[i]) by {
        assert(healthy(b.entities[i]));
    }
}

/// One order of one unit touches no hit points, and what it fires has none.
pub proof fn lemma_step_unit_keeps_health(w: WorldView, id: EntityId, dt_ms: u32)
    requires
        all_healthy(w),
    ensures
        all_healthy(step_unit(w, id, dt_ms)),
{
    let s = step_unit(w, id, dt_ms);
    assert forall|i: int| 0 <= i < s.entities.len() implies healthy(#[trigger] s.entities[i]) by {
        if i < w.entities.len() {
            assert(healthy(w.entities[i]));
        }
    }
}

/// A tick of the command engine touches no hit points.
pub proof fn lemma_step_units_keep_health(w: WorldView, from: int, to: int, dt_ms: u32)
    requires
        all_healthy(w),
    ensures
        all_healthy(step_units(w, from, to, dt_ms)),
    decreases to - from,
{
    if !(from >= to || from < 0 || from > usize::MAX) {
        lemma_step_unit_keeps_health(w, from as usize, dt_ms);
        lemma_step_units_keep_health(step_unit(w, from as usize, dt_ms), from + 1, to, dt_ms);
    }
}

/// A tick of the projectiles touches no hit points: a hit only waits.
pub proof fn lemma_bullets_keep_health(w: WorldView, from: int, to: int, dt_ms: u32)
    requires
        all_healthy(w),
    ensures
        all_healthy(bullets_flown(w, from, to, dt_ms)),
    decreases to - from,
{
    if !(from >= to || from < 0 || from > usize::MAX) {
        let s = bullet_flown(w, from as usize, dt_ms);
        assert forall|i: int| 0 <= i < s.entities.len() implies healthy(
            #[trigger] s.entities[i],
        ) by {
            assert(healthy(w.entities[i]));
        }
        lemma_bullets_keep_health(s, from + 1, to, dt_ms);
    }
}

/// The choice of targets touches no hit points.
pub proof fn lemma_pigs_keep_health(w: WorldView, from: int, to: int, mild: bool)
    requires
        all_healthy(w),
    ensures
        all_healthy(pigs_roused(w, from, to, mild)),
    decreases to - from,
{
    if !(from >= to || from < 0 || from > usize::MAX) {
        let s = if picks_targets(w.get(from as usize), mild) {
            roused(w, from as usize, sight_of(mild))
        } else {
            w
        };
        assert forall|i: int| 0 <= i < s.entities.len() implies healthy(
            #[trigger] s.entities[i],
        ) by {
            assert(healthy(w.entities[i]));
        }
        lemma_pigs_keep_health(s, from + 1, to, mild);
    }
}

/// Hit points stay between zero and their maximum through the first phase
/// of a tick as well: nothing in it changes them.
pub proof fn law_health_survives_update(w: WorldView, dt_ms: u32)
    requires
        all_healthy(w),
    ensures
        all_healthy(updated(w, dt_ms)),
{
    let m = mining_timers_ticked(w, dt_ms);
    assert forall|i: int| 0 <= i < m.entities.len() implies healthy(#[trigger] m.entities[i]) by {
        assert(healthy(w.entities[i]));
    }
    let a = bullets_flown(m, 0, m.entities.len() as int, dt_ms);
    lemma_bullets_keep_health(m, 0, m.entities.len() as int, dt_ms);
    let b = step_units(a, 0, a.entities.len() as int, dt_ms);
    lemma_step_units_keep_health(a, 0, a.entities.len() as int, dt_ms);
    let c = attack_timers_ticked(b, dt_ms);
    assert forall|i: int| 0 <= i < c.entities.len() implies healthy(#[trigger] c.entities[i]) by {
        assert(healthy(b.entities[i]));
    }
    let d = pigs_roused(c, 0, c.entities.len() as int, false);
    lemma_pigs_keep_health(c, 0, c.entities.len() as int, false);
    let e = pigs_roused(d, 0, d.entities.len() as int, true);
    lemma_pigs_keep_health(d, 0, d.entities.len() as int, true);
    let f = all_drifted(e, dt_ms);
    assert forall|i: int| 0 <= i < f.entities.len() implies healthy(#[trigger] f.entities[i]) by {
        assert(healthy(e.entities[i]));
    }
}

/// Every entity that a wave brings has all its hit points, so a wave leaves
/// the world within its hit point limits.
pub proof fn law_waves_arrive_healthy(
    w: WorldView,
    payload: WavePayload,
    count: nat,
    side: int,
    origin: Position,
    heading: Position,
    from: nat,
)
    requires
        all_healthy(w),
    ensures
        all_healthy(wave_spawned(w, payload, count, side, origin, heading, from)),
    decreases count - from,
{
    if from < count {
        let s = w.spawned(
            wave_member(payload, from, wave_slot(origin, side, count, from), heading),
        );
        assert forall|i: int| 0 <= i < s.entities.len() implies healthy(
            #[trigger] s.entities[i],
        ) by {
            if i < w.entities.len() {
                assert(healthy(w.entities[i]));
            }
        }
        law_waves_arrive_healthy(s, payload, count, side, origin, heading, from + 1);
    }
}

/// Whether the slot is empty or holds an entity that carries no more than
/// it can.
pub open spec fn within_cargo(slot: Option<EntityView>) -> bool {
    slot matches Some(e) ==> (e.mining matches Some(m) ==> m.current_carry <= m.max_carry)
}

/// Whether no miner of the world carries more than it can.
pub open spec fn all_within_cargo(w: WorldView) -> bool {
    forall|i: int| 0 <= i < w.entities.len() ==> within_cargo(#[trigger] w.entities[i])
}

/// What is left in the slot, if it holds a deposit.
pub open spec fn remaining(slot: Option<EntityView>) -> Option<u32> {
    match slot {
        Some(e) => match e.mineable {
            Some(m) => Some(m.amount),
            None => None,
        },
        None => None,
    }
}

/// One order of one unit keeps every miner within its cargo limit, takes at
/// most one unit from a deposit, and never takes from an empty one.
pub proof fn lemma_step_unit_keeps_cargo(w: WorldView, id: EntityId, dt_ms: u32)
    requires
        all_within_cargo(w),
    ensures
        all_within_cargo(step_unit(w, id, dt_ms)),
        step_unit(w, id, dt_ms).entities.len() >= w.entities.len(),
        forall|j: int|
            0 <= j < w.entities.len() ==> (#[trigger] remaining(w.entities[j]) matches Some(before)
                ==> (remaining(step_unit(w, id, dt_ms).entities[j]) matches Some(after) && after
                <= before <= after + 1)),
{
    let s = step_unit(w, id, dt_ms);
    if commanded(w.get(id)) {
        assert(within_cargo(w.entities[id as int]));
        assert forall|i: int| 0 <= i < s.entities.len() implies within_cargo(
            #[trigger] s.entities[i],
        ) by {
            if i < w.entities.len() {
                assert(within_cargo(w.entities[i]));
            }
        }
    }
}

/// A tick of the command engine keeps every miner within its cargo limit.
pub proof fn law_cargo_stays_in_range(w: WorldView, from: int, to: int, dt_ms: u32)
    requires
        all_within_cargo(w),
    ensures
        all_within_cargo(step_units(w, from, to, dt_ms)),
    decreases to - from,
{
    if !(from >= to || from < 0 || from > usize::MAX) {
        lemma_step_unit_keeps_cargo(w, from as usize, dt_ms);
        law_cargo_stays_in_range(step_unit(w, from as usize, dt_ms), from + 1, to, dt_ms);
    }
}

/// No miner carries more than it can after the first phase of a tick, if
/// none did before: only the command engine changes what a miner carries.
pub proof fn law_cargo_survives_update(w: WorldView, dt_ms: u32)
    requires
        all_within_cargo(w),
    ensures
        all_within_cargo(updated(w, dt_ms)),
{
    let m = mining_timers_ticked(w, dt_ms);
    assert forall|i: int| 0 <= i < m.entities.len() implies within_cargo(
        #[trigger] m.entities[i],
    ) by {
        assert(within_cargo(w.entities[i]));
    }
    let a = bullets_flown(m, 0, m.entities.len() as int, dt_ms);
    lemma_bullets_keep_cargo(m, 0, m.entities.len() as int, dt_ms);
    let b = step_units(a, 0, a.entities.len() as int, dt_ms);
    law_cargo_stays_in_range(a, 0, a.entities.len() as int, dt_ms);
    let c = attack_timers_ticked(b, dt_ms);
    assert forall|i: int| 0 <= i < c.entities.len() implies within_cargo(
        #[trigger] c.entities[i],
    ) by {
        assert(within_cargo(b.entities[i]));
    }
    let d = pigs_roused(c, 0, c.entities.len() as int, false);
    lemma_pigs_keep_cargo(c, 0, c.entities.len() as int, false);
    let e = pigs_roused(d, 0, d.entities.len() as int, true);
    lemma_pigs_keep_cargo(d, 0, d.entities.len() as int, true);
    let f = all_drifted(e, dt_ms);
    assert forall|i: int| 0 <= i < f.entities.len() implies within_cargo(
        #[trigger] f.entities[i],
    ) by {
        assert(within_cargo(e.entities[i]));
    }
}

/// A tick of the projectiles changes no cargo.
pub proof fn lemma_bullets_keep_cargo(w: WorldView, from: int, to: int, dt_ms: u32)
    requires
        all_within_cargo(w),
    ensures
        all_within_cargo(bullets_flown(w, from, to, dt_ms)),
    decreases to - from,
{
    if !(from >= to || from < 0 || from > usize::MAX) {
        let s = bullet_flown(w, from as usize, dt_ms);
        assert forall|i: int| 0 <= i < s.entities.len() implies within_cargo(
            #[trigger] s.entities[i],
        ) by {
            assert(within_cargo(w.entities[i]));
        }
        lemma_bullets_keep_cargo(s, from + 1, to, dt_ms);
    }
}

/// The choice of targets changes no cargo.
pub proof fn lemma_pigs_keep_cargo(w: WorldView, from: int, to: int, mild: bool)
    requires
        all_within_cargo(w),
    ensures
        all_within_cargo(pigs_roused(w, from, to, mild)),
    decreases to - from,
{
    if !(from >= to || from < 0 || from > usize::MAX) {
        let s = if picks_targets(w.get(from as usize), mild) {
            roused(w, from as usize, sight_of(mild))
        } else {
            w
        };
        assert forall|i: int| 0 <= i < s.entities.len() implies within_cargo(
            #[trigger] s.entities[i],
        ) by {
            assert(within_cargo(w.entities[i]));
        }
        lemma_pigs_keep_cargo(s, from + 1, to, mild);
    }
}

/// A tick of the command engine takes nothing from a deposit that is empty
/// and adds nothing to any deposit.
pub proof fn law_deposits_never_grow(w: WorldView, from: int, to: int, dt_ms: u32, j: int)
    requires
        all_within_cargo(w),
        0 <= j < w.entities.len(),
        remaining(w.entities[j]) is Some,
    ensures
        j < step_units(w, from, to, dt_ms).entities.len(),
        remaining(step_units(w, from, to, dt_ms).entities[j]) matches Some(after) && after
            <= remaining(w.entities[j])->0,
    decreases to - from,
{
    if !(from >= to || from < 0 || from > usize::MAX) {
        lemma_step_unit_keeps_cargo(w, from as usize, dt_ms);
        let s = step_unit(w, from as usize, dt_ms);
        assert(remaining(w.entities[j]) is Some);
        law_deposits_never_grow(s, from + 1, to, dt_ms, j);
    }
}

/// Giving a unit the move order it already has, in place of its orders,
/// changes neither where it stands nor, the second time, what it is told.
/// And whatever the length of the tick, the move never takes the unit
/// farther from its goal, and brings it closer whenever the unit is still on
/// its way and the step is not zero.
pub proof fn law_repeated_move_keeps_progress(w: WorldView, id: EntityId, p: Position, dt_ms: u32)
    requires
        commanded(w.get(id)),
        w.get(id)->0.commands->0[0] == UnitCommand::MoveToPos(p),
    ensures
        issued(w.get(id)->0, UnitCommand::MoveToPos(p), false).position == w.get(id)->0.position,
        issued(
            issued(w.get(id)->0, UnitCommand::MoveToPos(p), false),
            UnitCommand::MoveToPos(p),
            false,
        ) == issued(w.get(id)->0, UnitCommand::MoveToPos(p), false),
        step_unit(w, id, dt_ms).get(id) is Some,
        dist_sq(step_unit(w, id, dt_ms).get(id)->0.position, p) <= dist_sq(
            w.get(id)->0.position,
            p,
        ),
        step_length(w.get(id)->0.speed(), dt_ms) > 0 && dist_sq(w.get(id)->0.position, p)
            > ARRIVAL_EPSILON * ARRIVAL_EPSILON ==> dist_sq(
            step_unit(w, id, dt_ms).get(id)->0.position,
            p,
        ) < dist_sq(w.get(id)->0.position, p),
{
    let e = w.get(id)->0;
    let step = step_length(e.speed(), dt_ms);
    lemma_step_toward_approaches(e.position, p, step);
    if step > 0 && dist_sq(e.position, p) > ARRIVAL_EPSILON * ARRIVAL_EPSILON {
        assert(e.position != p) by {
            if e.position == p {
                assert(dist_sq(p, p) == 0) by (nonlinear_arith)
                    requires
                        dist_sq(p, p) == (0 * 0 + 0 * 0) as nat,
                ;
            }
        }
        lemma_step_toward_gets_closer(e.position, p, step);
    }
}

/// Changing an entity without changing whether it is a depot does not
/// change which entity is the depot.
pub proof fn lemma_depot_kept(w: WorldView, id: EntityId, e: EntityView, from: int)
    requires
        w.get(id) is Some,
        e.mother_unit == w.get(id)->0.mother_unit,
        0 <= from,
    ensures
        first_depot(w.with_entity(id, e).entities, from) == first_depot(w.entities, from),
    decreases w.entities.len() - from,
{
    if from < w.entities.len() && from <= usize::MAX {
        lemma_depot_kept(w, id, e, from + 1);
    }
}

/// A miner that arrives at the depot with the order to return and then
/// resume: all it carries goes to the stockpile, it carries nothing, and its
/// active order is to mine the node again. While the node is still a deposit
/// and the miner can carry anything at all, the next tick leaves that order
/// in place.
pub proof fn law_deposit_then_resume(
    w: WorldView,
    id: EntityId,
    depot: EntityId,
    node: EntityId,
    dt_ms: u32,
)
    requires
        commanded(w.get(id)),
        w.get(id)->0.commands->0[0] == UnitCommand::ReturnCargoToUnit(depot, Some(node)),
        w.get(id)->0.mining is Some,
        w.other_position(id, depot) is Some,
        dist_sq(w.get(id)->0.position, w.other_position(id, depot)->0) <= DEPOT_RANGE * DEPOT_RANGE,
    ensures
        step_unit(w, id, dt_ms).minerals == deposited(
            w.minerals,
            w.get(id)->0.mining->0.current_carry,
        ),
        commanded(step_unit(w, id, dt_ms).get(id)),
        step_unit(w, id, dt_ms).get(id)->0.mining->0.current_carry == 0,
        step_unit(w, id, dt_ms).get(id)->0.commands->0 == w.get(id)->0.commands->0.update(
            0,
            UnitCommand::MineEntity(node),
        ),
        minable(w, node) && w.get(id)->0.mining->0.max_carry > 0 ==> commanded(
            step_unit(step_unit(w, id, dt_ms), id, dt_ms).get(id),
        ) && step_unit(step_unit(w, id, dt_ms), id, dt_ms).get(id)->0.commands->0[0]
            == UnitCommand::MineEntity(node),
{
}

/// A miner that arrives at the depot with the order to return and then
/// resume, while the node is gone: after the deposit it looks for the node,
/// turns back to the depot with nothing to unload, and drops the order. Four
/// ticks after its arrival the order has left its queue, which is empty if
/// it held nothing else, and the stockpile has grown by what the miner
/// carried.
pub proof fn law_deposit_then_idle(
    w: WorldView,
    id: EntityId,
    depot: EntityId,
    node: EntityId,
    dt_ms: u32,
)
    requires
        commanded(w.get(id)),
        w.get(id)->0.commands->0[0] == UnitCommand::ReturnCargoToUnit(depot, Some(node)),
        w.get(id)->0.mining is Some,
        w.other_position(id, depot) is Some,
        dist_sq(w.get(id)->0.position, w.other_position(id, depot)->0) <= DEPOT_RANGE * DEPOT_RANGE,
        w.depot() == Some(depot),
        !minable(w, node),
    ensures
        ({
            let w4 = step_unit(
                step_unit(step_unit(step_unit(w, id, dt_ms), id, dt_ms), id, dt_ms),
                id,
                dt_ms,
            );
            &&& w4.get(id) is Some
            &&& w4.get(id)->0.commands == Some(w.get(id)->0.commands->0.drop_first())
            &&& w4.get(id)->0.position == w.get(id)->0.position
            &&& w4.minerals == deposited(w.minerals, w.get(id)->0.mining->0.current_carry)
        }),
{
    let e = w.get(id)->0;
    let w1 = step_unit(w, id, dt_ms);
    let e1 = w1.get(id)->0;
    assert(commanded(w1.get(id)));
    assert(e1.commands->0[0] == UnitCommand::MineEntity(node));
    assert(e1.position == e.position);
    lemma_depot_kept(w, id, e1, 0);
    assert(w1.depot() == Some(depot));
    assert(!minable(w1, node));
    let w2 = step_unit(w1, id, dt_ms);
    let e2 = w2.get(id)->0;
    assert(commanded(w2.get(id)));
    assert(e2.commands->0[0] == UnitCommand::ReturnCargoToUnit(depot, None));
    assert(e2.position == e.position);
    assert(e2.mining is Some && e2.mining->0.current_carry == 0);
    assert(w2.other_position(id, depot) == w.other_position(id, depot));
    assert(w2.minerals == w1.minerals);
    let w3 = step_unit(w2, id, dt_ms);
    let e3 = w3.get(id)->0;
    assert(commanded(w3.get(id)));
    assert(e3.commands->0[0] == UnitCommand::Completed);
    assert(e3.position == e.position);
    let w4 = step_unit(w3, id, dt_ms);
    assert(w4.get(id)->0.commands->0 =~= e.commands->0.drop_first());
}

/// A build queue that holds no more orders than may wait still does after
/// any request; a request never asks more of the stockpile than is in it,
/// takes exactly the price of an order that joins the queue, and takes
/// nothing for one that does not.
pub proof fn law_build_queue_stays_bounded(q: BuildQueueView, stock: u64, order: BuildOrder)
    requires
        q.queue.len() <= q.max_request,
    ensures
        q.requested(stock, order).0.queue.len() <= q.max_request,
        q.requested(stock, order).1 <= stock,
        q.requested(stock, order).0.queue.len() == q.queue.len() + 1 ==> q.requested(
            stock,
            order,
        ).1 + cost(order) == stock,
        q.requested(stock, order).0.queue.len() == q.queue.len() ==> q.requested(stock, order).1
            == stock,
{
}

/// A miner that the command engine sends home is sent to a depot: the
/// entity that its new order names is marked as mother unit.
pub proof fn law_cargo_goes_to_a_depot(w: WorldView, e: EntityView, resume: Option<EntityId>)
    requires
        e.busy(),
        w.depot() is Some,
    ensures
        sent_home(w, e, resume).commands->0[0] == UnitCommand::ReturnCargoToUnit(
            w.depot()->0,
            resume,
        ),
        is_depot(w.get(w.depot()->0)),
{
    lemma_first_depot_is_first(w.entities, 0);
}

/// Away from the ends of the coordinate range the members of a wave stand
/// on a lattice that begins at the point where the wave enters: member `i`
/// stands `i` modulo the number of columns spacings across and `i` divided
/// by it spacings along, and no two members share a place.
pub proof fn law_wave_is_a_lattice(
    w: WorldView,
    payload: WavePayload,
    count: nat,
    side: int,
    origin: Position,
    heading: Position,
    i: nat,
    j: nat,
)
    requires
        i < count,
        j < count,
        cell_fits(origin, i, ceil_sqrt(count), side != 3, side == 0),
        cell_fits(origin, j, ceil_sqrt(count), side != 3, side == 0),
    ensures
        ({
            let r = wave_spawned(w, payload, count, side, origin, heading, 0);
            let c = ceil_sqrt(count);
            let at_i = r.entities[(w.entities.len() + i) as int]->0.position;
            let at_j = r.entities[(w.entities.len() + j) as int]->0.position;
            &&& r.entities.len() == w.entities.len() + count
            &&& c * c >= count
            &&& r.entities[(w.entities.len() + i) as int] is Some
            &&& at_i == wave_slot(origin, side, count, i)
            &&& at_i.x == (if side != 3 {
                origin.x + GRID_SPACING * (i % c)
            } else {
                origin.x - GRID_SPACING * (i % c)
            })
            &&& at_i.y == (if side == 0 {
                origin.y + GRID_SPACING * (i / c)
            } else {
                origin.y - GRID_SPACING * (i / c)
            })
            &&& i != j ==> at_i != at_j
            &&& i == 0 ==> at_i == origin
        }),
{
    let c = ceil_sqrt(count);
    lemma_ceil_sqrt_least(count, 0);
    lemma_wave_places(w, payload, count, side, origin, heading, 0);
    let r = wave_spawned(w, payload, count, side, origin, heading, 0);
    assert(r.entities[w.entities.len() + i - 0] == Some(
        wave_member(payload, i, wave_slot(origin, side, count, i), heading),
    ));
    assert(r.entities[w.entities.len() + j - 0] == Some(
        wave_member(payload, j, wave_slot(origin, side, count, j), heading),
    ));
    lemma_wave_member_position(payload, i, wave_slot(origin, side, count, i), heading);
    lemma_wave_member_position(payload, j, wave_slot(origin, side, count, j), heading);
    lemma_grid_is_a_lattice(origin, i, j, c, side != 3, side == 0);
}

/// Whether the slot holds an entity that takes orders.
pub open spec fn takes_orders(slot: Option<EntityView>) -> bool {
    slot matches Some(e) && e.commands is Some
}

/// Orders change no entity that is not among the units they go to.
pub proof fn lemma_orders_leave_others(
    w: WorldView,
    selected: Seq<EntityId>,
    clicked: Seq<EntityId>,
    click_pos: Position,
    append: bool,
    columns: nat,
    from: int,
    slot: nat,
    id: EntityId,
)
    requires
        0 <= from,
        forall|m: int| from <= m < selected.len() ==> selected[m] != id,
    ensures
        orders_issued(w, selected, clicked, click_pos, append, columns, from, slot).get(id)
            == w.get(id),
    decreases selected.len() - from,
{
    if from < selected.len() {
        let unit = selected[from];
        if w.get(unit) matches Some(e) && e.commands is Some {
            let e = w.get(unit)->0;
            let command = order_for(w, unit, clicked, click_pos, slot, columns);
            let w2 = w.with_entity(unit, issued(e, command, append));
            lemma_orders_leave_others(
                w2,
                selected,
                clicked,
                click_pos,
                append,
                columns,
                from + 1,
                if command is MoveToPos {
                    slot + 1
                } else {
                    slot
                },
                id,
            );
        } else {
            lemma_orders_leave_others(
                w,
                selected,
                clicked,
                click_pos,
                append,
                columns,
                from + 1,
                slot,
                id,
            );
        }
    }
}

/// After a click on bare ground, without the append modifier, unit `k` of a
/// selection of distinct units that all take orders has one order: to move
/// to cell `k` of the formation grid at the click.
pub proof fn lemma_bare_click_goal(
    w: WorldView,
    selected: Seq<EntityId>,
    click_pos: Position,
    columns: nat,
    from: int,
    k: int,
)
    requires
        0 <= from <= k < selected.len(),
        forall|m: int, n: int| 0 <= m < n < selected.len() ==> selected[m] != selected[n],
        forall|m: int| from <= m < selected.len() ==> takes_orders(w.get(#[trigger] selected[m])),
    ensures
        orders_issued(
            w,
            selected,
            Seq::empty(),
            click_pos,
            false,
            columns,
            from,
            from as nat,
        ).get(selected[k]) matches Some(e) && e.commands == Some(
            seq![UnitCommand::MoveToPos(grid_slot(click_pos, k as nat, columns))],
        ),
    decreases selected.len() - from,
{
    let none = Seq::<EntityId>::empty();
    let unit = selected[from];
    assert(takes_orders(w.get(selected[from])));
    let e = w.get(unit)->0;
    let command = order_for(w, unit, none, click_pos, from as nat, columns);
    assert(command == UnitCommand::MoveToPos(grid_slot(click_pos, from as nat, columns)));
    let w2 = w.with_entity(unit, issued(e, command, false));
    if k == from {
        lemma_orders_leave_others(
            w2,
            selected,
            none,
            click_pos,
            false,
            columns,
            from + 1,
            (from + 1) as nat,
            unit,
        );
    } else {
        assert forall|m: int| from + 1 <= m < selected.len() implies takes_orders(
            w2.get(#[trigger] selected[m]),
        ) by {
            assert(takes_orders(w.get(selected[m])));
        }
        lemma_bare_click_goal(w2, selected, click_pos, columns, from + 1, k);
    }
}

/// A move order for a group, given by a click on bare ground without the
/// append modifier, replaces the orders of each unit by one move. Away from
/// the ends of the coordinate range the goals stand on a lattice that begins
/// at the click, as many columns wide as the square root of the size of the
/// group, rounded up, and no two units share a goal.
pub proof fn law_group_move_is_a_lattice(
    w: WorldView,
    selected: Seq<EntityId>,
    click_pos: Position,
    k: int,
    l: int,
)
    requires
        0 <= k < selected.len(),
        0 <= l < selected.len(),
        forall|m: int, n: int| 0 <= m < n < selected.len() ==> selected[m] != selected[n],
        forall|m: int| 0 <= m < selected.len() ==> takes_orders(w.get(#[trigger] selected[m])),
        cell_fits(click_pos, k as nat, ceil_sqrt(selected.len()), true, false),
        cell_fits(click_pos, l as nat, ceil_sqrt(selected.len()), true, false),
    ensures
        ({
            let r = click_ordered(w, selected, Seq::empty(), click_pos, false);
            let c = ceil_sqrt(selected.len());
            let goal_k = grid_slot(click_pos, k as nat, c);
            let goal_l = grid_slot(click_pos, l as nat, c);
            &&& c * c >= selected.len()
            &&& r.get(selected[k]) matches Some(e) && e.commands == Some(
                seq![UnitCommand::MoveToPos(goal_k)],
            )
            &&& r.get(selected[l]) matches Some(e) && e.commands == Some(
                seq![UnitCommand::MoveToPos(goal_l)],
            )
            &&& goal_k.x == click_pos.x + GRID_SPACING * (k % (c as int))
            &&& goal_k.y == click_pos.y - GRID_SPACING * (k / (c as int))
            &&& k != l ==> goal_k != goal_l
            &&& k == 0 ==> goal_k == click_pos
        }),
{
    let c = ceil_sqrt(selected.len());
    lemma_ceil_sqrt_least(selected.len(), 0);
    lemma_bare_click_goal(w, selected, click_pos, c, 0, k);
    lemma_bare_click_goal(w, selected, click_pos, c, 0, l);
    lemma_grid_is_a_lattice(click_pos, k as nat, l as nat, c, true, false);
}

} // verus!
