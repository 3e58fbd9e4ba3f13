//! Combat: attack countdowns, projectiles in flight, the deferred resolution
//! of damage, the removal of the dead, and the choice of a target by idle
//! units.

use crate::geometry::dist_sq;
use crate::geometry::distance_squared;
use crate::geometry::farther_than;
use crate::geometry::step_len;
use crate::geometry::step_length;
use crate::geometry::step_toward;
use crate::geometry::stepped_toward;
use crate::geometry::Position;
use crate::units::DamageEvent;
use crate::units::EntityId;
use crate::units::EntityView;
use crate::units::FlyingBullet;
use crate::units::Health;
use crate::units::Team;
use crate::units::UnitCommand;
use crate::world::slot_view;
use crate::world::World;
use crate::world::WorldView;
use vstd::prelude::*;

verus! {

/// A projectile closer than this to its target hits it.
pub const BULLET_HIT_RANGE: u32 = 40_000;

/// How far a mildly aggressive unit looks for enemies.
pub const SIGHT_RANGE: u32 = 400_000;

/// A slot after `dt_ms` milliseconds of its attack countdown.
pub open spec fn attack_ticked(slot: Option<EntityView>, dt_ms: u32) -> Option<EntityView> {
    match slot {
        Some(e) => Some(
            match e.attack {
                Some(a) => e.with_attack(a.ticked(dt_ms as nat)),
                None => e,
            },
        ),
        None => None,
    }
}

/// The world after every attack countdown ran for `dt_ms` milliseconds,
/// whatever its unit was doing.
pub open spec fn attack_timers_ticked(w: WorldView, dt_ms: u32) -> WorldView {
    WorldView {
        entities: Seq::new(w.entities.len(), |i: int| attack_ticked(w.entities[i], dt_ms)),
        ..w
    }
}

/// Lets every attack countdown run for `dt_ms` milliseconds.
pub fn tick_attack_timers(world: &mut World, dt_ms: u32)
    ensures
        final(world)@ == attack_timers_ticked(old(world)@, dt_ms),
{
    let n = world.entities.len();
    let mut i: usize = 0;
    while i < n
        invariant
            i <= n,
            n == old(world).entities.len(),
            n == world.entities.len(),
            world.minerals == old(world).minerals,
            world.boundaries == old(world).boundaries,
            world.damage_events == old(world).damage_events,
            forall|j: int|
                0 <= j < i ==> slot_view(#[trigger] world.entities[j]) == attack_ticked(
                    slot_view(old(world).entities[j]),
                    dt_ms,
                ),
            forall|j: int| i <= j < n ==> #[trigger] world.entities[j] == old(world).entities[j],
        decreases n - i,
    {
        match &mut world.entities[i] {
            Some(e) => {
                match &mut e.attack {
                    Some(a) => {
                        a.time_between_attacks.tick(dt_ms);
                    },
                    None => {},
                }
            },
            None => {},
        }
        i += 1;
    }
    assert(world@.entities =~= attack_timers_ticked(old(world)@, dt_ms).entities);
}

/// Where a projectile flies to: the position of its target, if the target
/// still exists and is not itself a projectile.
pub open spec fn bullet_target(w: WorldView, b: FlyingBullet) -> Option<Position> {
    if w.get(b.target) matches Some(t) && t.bullet is None {
        Some(w.get(b.target)->0.position)
    } else {
        None
    }
}

/// One tick of the entity behind `id`, if it is a projectile. Without a
/// target it vanishes. Farther than the hit range from its target it flies
/// toward it. Otherwise it vanishes and leaves a hit to be resolved.
pub open spec fn bullet_flown(w: WorldView, id: EntityId, dt_ms: u32) -> WorldView {
    if w.get(id) matches Some(e) && e.bullet is Some {
        let e = w.get(id)->0;
        let b = e.bullet->0;
        match bullet_target(w, b) {
            None => w.despawned(id),
            Some(tp) => {
                if dist_sq(e.position, tp) > BULLET_HIT_RANGE * BULLET_HIT_RANGE {
                    w.with_entity(
                        id,
                        e.at(stepped_toward(e.position, tp, step_length(b.speed, dt_ms))),
                    )
                } else {
                    WorldView {
                        damage_events: w.damage_events.push(
                            DamageEvent { target: b.target, dmg_amount: b.damage, damager: b.shooter },
                        ),
                        ..w.despawned(id)
                    }
                }
            },
        }
    } else {
        w
    }
}

/// One tick of the projectiles behind the handles `from..to`, in the order
/// of their handles.
pub open spec fn bullets_flown(w: WorldView, from: int, to: int, dt_ms: u32) -> WorldView
    decreases to - from,
{
    if from >= to || from < 0 || from > usize::MAX {
        w
    } else {
        bullets_flown(bullet_flown(w, from as usize, dt_ms), from + 1, to, dt_ms)
    }
}

/// One tick of the entity behind `id`, if it is a projectile.
pub fn fly_bullet(world: &mut World, id: EntityId, dt_ms: u32)
    ensures
        final(world)@ == bullet_flown(old(world)@, id, dt_ms),
{
    let flying: Option<(FlyingBullet, Position)> = match world.get(id) {
        Some(e) => match e.bullet {
            Some(b) => Some((b, e.position)),
            None => None,
        },
        None => None,
    };
    match flying {
        None => {},
        Some((b, from)) => {
            let target_pos: Option<Position> = match world.get(b.target) {
                Some(t) => {
                    if t.bullet.is_none() {
                        Some(t.position)
                    } else {
                        None
                    }
                },
                None => None,
            };
            match target_pos {
                None => {
                    world.despawn(id);
                },
                Some(tp) => {
                    if farther_than(from, tp, BULLET_HIT_RANGE) {
                        let mut e = world.take(id);
                        e.position = step_toward(from, tp, step_len(b.speed, dt_ms));
                        world.put(id, e);
                        proof {
                            World::lemma_put_back(*old(world), *world, id, e);
                        }
                    } else {
                        world.despawn(id);
                        world.damage_events.push(
                            DamageEvent { target: b.target, dmg_amount: b.damage, damager: b.shooter },
                        );
                    }
                },
            }
        },
    }
}

/// One tick of every projectile that was in flight when the tick began.
pub fn bullet_behaviour(world: &mut World, dt_ms: u32)
    ensures
        final(world)@ == bullets_flown(old(world)@, 0, old(world)@.entities.len() as int, dt_ms),
{
    let n = world.entities.len();
    let mut i: usize = 0;
    while i < n
        invariant
            i <= n,
            n == old(world)@.entities.len(),
            bullets_flown(world@, i as int, n as int, dt_ms) == bullets_flown(
                old(world)@,
                0,
                n as int,
                dt_ms,
            ),
        decreases n - i,
    {
        fly_bullet(world, i, dt_ms);
        i += 1;
    }
}

/// Hit points after a hit of `amount`: never below zero, never above the
/// maximum.
pub open spec fn damaged(h: Health, amount: u32) -> Health {
    Health {
        current: if amount >= h.current {
            0
        } else if h.current - amount > h.max_health {
            h.max_health
        } else {
            (h.current - amount) as u32
        },
        max_health: h.max_health,
    }
}

/// The world after one hit was resolved. A target that is gone or has no hit
/// points is not touched. Otherwise the target loses hit points, and if it
/// has orders but none to carry out, it is ordered to attack whoever hit it.
pub open spec fn hit(w: WorldView, ev: DamageEvent) -> WorldView {
    if w.get(ev.target) matches Some(e) && e.health is Some {
        let e = w.get(ev.target)->0;
        let hurt = EntityView { health: Some(damaged(e.health->0, ev.dmg_amount)), ..e };
        w.with_entity(
            ev.target,
            if hurt.idle() {
                hurt.queued(UnitCommand::AttackEntity(ev.damager))
            } else {
                hurt
            },
        )
    } else {
        w
    }
}

/// The world after the hits `events[from..]` were resolved in order.
pub open spec fn hits_resolved(w: WorldView, events: Seq<DamageEvent>, from: int) -> WorldView
    decreases events.len() - from,
{
    if from < 0 || from >= events.len() {
        w
    } else {
        hits_resolved(hit(w, events[from]), events, from + 1)
    }
}

/// The world after every waiting hit was resolved, first come first served,
/// and the queue of hits was emptied.
pub open spec fn damage_resolved(w: WorldView) -> WorldView {
    WorldView { damage_events: Seq::empty(), ..hits_resolved(w, w.damage_events, 0) }
}

/// Takes `amount` hit points away.
pub fn damage(h: Health, amount: u32) -> (r: Health)
    ensures
        r == damaged(h, amount),
        r.current <= r.max_health,
{
    let current = if amount >= h.current {
        0
    } else if h.current - amount > h.max_health {
        h.max_health
    } else {
        h.current - amount
    };
    Health { current, max_health: h.max_health }
}

/// Resolves one hit.
pub fn apply_damage(world: &mut World, ev: DamageEvent)
    ensures
        final(world)@ == hit(old(world)@, ev),
{
    let health: Option<Health> = match world.get(ev.target) {
        Some(e) => e.health,
        None => None,
    };
    match health {
        None => {},
        Some(h) => {
            let mut e = world.take(ev.target);
            e.health = Some(damage(h, ev.dmg_amount));
            let idle = match &e.commands {
                Some(list) => list.commands.len() == 0,
                None => false,
            };
            if idle {
                e.push_command(UnitCommand::AttackEntity(ev.damager));
            }
            world.put(ev.target, e);
            proof {
                World::lemma_put_back(*old(world), *world, ev.target, e);
            }
        },
    }
}

/// Resolves every waiting hit, in the order in which the hits were made, and
/// empties the queue.
pub fn process_damage_events(world: &mut World)
    ensures
        final(world)@ == damage_resolved(old(world)@),
{
    let n = world.damage_events.len();
    let mut i: usize = 0;
    while i < n
        invariant
            i <= n,
            n == world.damage_events.len(),
            world.damage_events@ == old(world).damage_events@,
            hits_resolved(world@, world.damage_events@, i as int) == hits_resolved(
                old(world)@,
                old(world).damage_events@,
                0,
            ),
        decreases n - i,
    {
        let ev = world.damage_events[i];
        apply_damage(world, ev);
        i += 1;
    }
    world.damage_events.clear();
}

/// Whether the slot holds an entity whose hit points have run out.
pub open spec fn dead(slot: Option<EntityView>) -> bool {
    slot matches Some(e) && e.health matches Some(h) && h.current == 0
}

/// The world without its dead.
pub open spec fn dead_removed(w: WorldView) -> WorldView {
    WorldView {
        entities: Seq::new(
            w.entities.len(),
            |i: int|
                if dead(w.entities[i]) {
                    None
                } else {
                    w.entities[i]
                },
        ),
        ..w
    }
}

/// Removes every entity whose hit points have run out.
pub fn check_dead_units(world: &mut World)
    ensures
        final(world)@ == dead_removed(old(world)@),
{
    let n = world.entities.len();
    let mut i: usize = 0;
    while i < n
        invariant
            i <= n,
            n == old(world).entities.len(),
            n == world.entities.len(),
            world.minerals == old(world).minerals,
            world.boundaries == old(world).boundaries,
            world.damage_events == old(world).damage_events,
            forall|j: int|
                0 <= j < i ==> slot_view(#[trigger] world.entities[j]) == (if dead(
                    slot_view(old(world).entities[j]),
                ) {
                    None
                } else {
                    slot_view(old(world).entities[j])
                }),
            forall|j: int| i <= j < n ==> #[trigger] world.entities[j] == old(world).entities[j],
        decreases n - i,
    {
        let is_dead = match &world.entities[i] {
            Some(e) => match e.health {
                Some(h) => h.current == 0,
                None => false,
            },
            None => false,
        };
        if is_dead {
            world.entities[i] = None;
        }
        i += 1;
    }
    assert(world@.entities =~= dead_removed(old(world)@).entities);
}

/// Whether the slot holds an entity of a team other than `team`.
pub open spec fn enemy_of(slot: Option<EntityView>, team: Team) -> bool {
    slot matches Some(e) && e.team matches Some(t) && t.0 != team.0
}

/// The enemy of `team` closest to `pos` among the entities behind the
/// handles below `upto`; of several equally close, the one with the lowest
/// handle.
pub open spec fn closest_enemy(w: WorldView, pos: Position, team: Team, upto: int) -> Option<
    EntityId,
>
    decreases upto,
{
    if upto <= 0 || upto > w.entities.len() {
        None
    } else {
        let best = closest_enemy(w, pos, team, upto - 1);
        let j = upto - 1;
        if enemy_of(w.entities[j], team) && (best is None || dist_sq(
            pos,
            w.entities[j]->0.position,
        ) < dist_sq(pos, w.entities[best->0 as int]->0.position)) {
            Some(j as usize)
        } else {
            best
        }
    }
}

/// What `closest_enemy` finds is an enemy, and no enemy is closer, nor as
/// close with a lower handle.
pub proof fn lemma_closest_enemy_is_nearest(
    w: WorldView,
    pos: Position,
    team: Team,
    upto: int,
    j: int,
)
    requires
        0 <= j < upto <= w.entities.len() <= usize::MAX,
        enemy_of(w.entities[j], team),
    ensures
        closest_enemy(w, pos, team, upto) matches Some(r) && r < upto && enemy_of(
            w.entities[r as int],
            team,
        ) && dist_sq(pos, w.entities[r as int]->0.position) <= dist_sq(
            pos,
            w.entities[j]->0.position,
        ) && (dist_sq(pos, w.entities[r as int]->0.position) == dist_sq(
            pos,
            w.entities[j]->0.position,
        ) ==> r <= j),
    decreases upto,
{
    if j < upto - 1 {
        lemma_closest_enemy_is_nearest(w, pos, team, upto - 1, j);
    } else {
        lemma_closest_enemy_found(w, pos, team, upto - 1);
    }
}

/// What `closest_enemy` finds is an enemy behind a handle below `upto`.
pub proof fn lemma_closest_enemy_found(w: WorldView, pos: Position, team: Team, upto: int)
    requires
        w.entities.len() <= usize::MAX,
    ensures
        closest_enemy(w, pos, team, upto) matches Some(r) ==> r < upto && r < w.entities.len()
            && enemy_of(w.entities[r as int], team),
    decreases upto,
{
    if upto > 0 && upto <= w.entities.len() {
        lemma_closest_enemy_found(w, pos, team, upto - 1);
    }
}

/// The world after the entity behind `id`, if it is idle and has a team,
/// looked for the closest enemy and was ordered to attack it. With a `sight`
/// the enemy must be closer than that.
pub open spec fn roused(w: WorldView, id: EntityId, sight: Option<u32>) -> WorldView {
    if w.get(id) matches Some(e) && e.idle() && e.team is Some {
        let e = w.get(id)->0;
        match closest_enemy(w, e.position, e.team->0, w.entities.len() as int) {
            None => w,
            Some(t) => {
                if sight is None || dist_sq(e.position, w.entities[t as int]->0.position)
                    < sight->0 * sight->0 {
                    w.with_entity(id, e.queued(UnitCommand::AttackEntity(t)))
                } else {
                    w
                }
            },
        }
    } else {
        w
    }
}

/// Whether the slot holds a unit that picks its own targets: with `mild`, a
/// mildly aggressive one, else an aggressive one.
pub open spec fn picks_targets(slot: Option<EntityView>, mild: bool) -> bool {
    slot matches Some(e) && (if mild {
        e.mild_aggression is Some
    } else {
        e.aggressive is Some
    })
}

/// The sight of a unit that picks its own targets.
pub open spec fn sight_of(mild: bool) -> Option<u32> {
    if mild {
        Some(SIGHT_RANGE)
    } else {
        None
    }
}

/// The world after the units behind the handles `from..to` that pick their
/// own targets did so, in the order of their handles.
pub open spec fn pigs_roused(w: WorldView, from: int, to: int, mild: bool) -> WorldView
    decreases to - from,
{
    if from >= to || from < 0 || from > usize::MAX {
        w
    } else {
        pigs_roused(
            if picks_targets(w.get(from as usize), mild) {
                roused(w, from as usize, sight_of(mild))
            } else {
                w
            },
            from + 1,
            to,
            mild,
        )
    }
}

/// Finds the enemy of `team` closest to `pos`, and its squared distance.
pub fn find_closest_enemy(world: &World, pos: Position, team: Team) -> (r: Option<(EntityId, u128)>)
    ensures
        match r {
            Some((t, d)) => closest_enemy(world@, pos, team, world@.entities.len() as int) == Some(
                t,
            ) && t < world@.entities.len() && world@.entities[t as int] is Some && d == dist_sq(
                pos,
                world@.entities[t as int]->0.position,
            ),
            None => closest_enemy(world@, pos, team, world@.entities.len() as int) is None,
        },
{
    let mut best: Option<(EntityId, u128)> = None;
    let mut j: usize = 0;
    while j < world.entities.len()
        invariant
            j <= world.entities.len(),
            match best {
                Some((t, d)) => closest_enemy(world@, pos, team, j as int) == Some(t) && t
                    < world@.entities.len() && world@.entities[t as int] is Some && d == dist_sq(
                    pos,
                    world@.entities[t as int]->0.position,
                ),
                None => closest_enemy(world@, pos, team, j as int) is None,
            },
        decreases world.entities.len() - j,
    {
        match &world.entities[j] {
            Some(e) => {
                match e.team {
                    Some(t) => {
                        if t.0 != team.0 {
                            let d = distance_squared(pos, e.position);
                            let closer = match best {
                                Some((_, least)) => d < least,
                                None => true,
                            };
                            if closer {
                                best = Some((j, d));
                            }
                        }
                    },
                    None => {},
                }
            },
            None => {},
        }
        j += 1;
    }
    best
}

/// Lets the entity behind `id`, if it is idle and has a team, pick the
/// closest enemy as its target.
pub fn rouse(world: &mut World, id: EntityId, sight: Option<u32>)
    ensures
        final(world)@ == roused(old(world)@, id, sight),
{
    let idle_unit: Option<(Position, Team)> = match world.get(id) {
        Some(e) => {
            let idle = match &e.commands {
                Some(list) => list.commands.len() == 0,
                None => false,
            };
            match e.team {
                Some(t) => {
                    if idle {
                        Some((e.position, t))
                    } else {
                        None
                    }
                },
                None => None,
            }
        },
        None => None,
    };
    match idle_unit {
        None => {},
        Some((pos, team)) => {
            match find_closest_enemy(world, pos, team) {
                None => {},
                Some((target, d)) => {
                    let seen = match sight {
                        None => true,
                        Some(s) => {
                            assert(s * s <= 0xFFFF_FFFF * 0xFFFF_FFFF) by (nonlinear_arith)
                                requires
                                    s <= 0xFFFF_FFFF,
                            ;
                            d < (s as u128) * (s as u128)
                        },
                    };
                    if seen {
                        let mut e = world.take(id);
                        e.push_command(UnitCommand::AttackEntity(target));
                        world.put(id, e);
                        proof {
                            World::lemma_put_back(*old(world), *world, id, e);
                        }
                    }
                },
            }
        },
    }
}

/// Lets the units that pick their own targets do so.
fn rouse_pigs(world: &mut World, mild: bool)
    ensures
        final(world)@ == pigs_roused(old(world)@, 0, old(world)@.entities.len() as int, mild),
{
    let n = world.entities.len();
    let mut i: usize = 0;
    while i < n
        invariant
            i <= n,
            n == old(world)@.entities.len(),
            pigs_roused(world@, i as int, n as int, mild) == pigs_roused(
                old(world)@,
                0,
                n as int,
                mild,
            ),
        decreases n - i,
    {
        let picks = match world.get(i) {
            Some(e) => {
                if mild {
                    e.mild_aggression.is_some()
                } else {
                    e.aggressive.is_some()
                }
            },
            None => false,
        };
        if picks {
            rouse(world, i, if mild {
                Some(SIGHT_RANGE)
            } else {
                None
            });
        }
        i += 1;
    }
}

/// Every idle aggressive unit is ordered to attack the closest enemy,
/// however far.
pub fn handle_aggressive_pigs(world: &mut World)
    ensures
        final(world)@ == pigs_roused(old(world)@, 0, old(world)@.entities.len() as int, false),
{
    rouse_pigs(world, false);
}

/// Every idle mildly aggressive unit is ordered to attack the closest enemy
/// within sight.
pub fn handle_mildly_aggressive_pigs(world: &mut World)
    ensures
        final(world)@ == pigs_roused(old(world)@, 0, old(world)@.entities.len() as int, true),
{
    rouse_pigs(world, true);
}

} // verus!
