//! Local avoidance and drift: a unit that overlaps others is pushed away from
//! them, on top of whatever its orders made it do, and drifting entities keep
//! drifting.

use crate::geometry::advance;
use crate::geometry::advanced;
use crate::geometry::clamp_displacement;
use crate::geometry::clamp_to_displacement;
use crate::geometry::step_len;
use crate::geometry::step_length;
use crate::geometry::Position;
use crate::units::Avoidance;
use crate::units::EntityId;
use crate::units::EntityView;
use crate::world::slot_view;
use crate::world::World;
use crate::world::WorldView;
use vstd::prelude::*;

verus! {

/// The radius of the disc around a unit in which others push it away.
pub const AVOIDANCE_RADIUS: u32 = 20_000;

/// The speed at which a unit is pushed away.
pub const PUSH_SPEED: u32 = 24;

/// Whether the entity behind `id` takes part in avoidance and has moved
/// since it was last examined: only then is the world around it queried.
pub open spec fn wants_query(w: WorldView, id: EntityId) -> bool {
    w.get(id) matches Some(e) && e.avoidance matches Some(a) && a.last_frame_pos != e.position
}

/// Whether `obstacle` pushes the entity behind `id`: it exists and is not
/// that entity itself.
pub open spec fn pushes(w: WorldView, id: EntityId, obstacle: EntityId) -> bool {
    obstacle != id && w.alive(obstacle)
}

/// The sum, over the first `upto` obstacles that push, of the displacement
/// from the obstacle to `pos`.
pub open spec fn repulsion(
    w: WorldView,
    id: EntityId,
    pos: Position,
    obstacles: Seq<EntityId>,
    upto: int,
) -> (int, int)
    decreases upto,
{
    if upto <= 0 || upto > obstacles.len() {
        (0, 0)
    } else {
        let (sx, sy) = repulsion(w, id, pos, obstacles, upto - 1);
        let o = obstacles[upto - 1];
        if pushes(w, id, o) {
            (sx + pos.x - w.get(o)->0.position.x, sy + pos.y - w.get(o)->0.position.y)
        } else {
            (sx, sy)
        }
    }
}

/// Whether any of the obstacles pushes.
pub open spec fn pushed(w: WorldView, id: EntityId, obstacles: Seq<EntityId>) -> bool {
    exists|k: int| 0 <= k < obstacles.len() && pushes(w, id, #[trigger] obstacles[k])
}

/// One tick of avoidance for the entity behind `id`, with `obstacles` the
/// entities that overlap the disc around it. A unit that has not moved since
/// it was last examined is not pushed. Otherwise its position is remembered,
/// and it moves at the push speed in the direction of the summed
/// displacements away from the obstacles; with no obstacle, or when they
/// cancel out, it stays. A sum that grows past the limit of a displacement
/// stops there, component by component.
pub open spec fn avoided(w: WorldView, id: EntityId, obstacles: Seq<EntityId>, dt_ms: u32) -> WorldView {
    if w.get(id) matches Some(e) && e.avoidance is Some {
        let e = w.get(id)->0;
        let a = e.avoidance->0;
        if a.last_frame_pos == e.position {
            w.with_entity(
                id,
                EntityView {
                    avoidance: Some(
                        Avoidance { last_frame_pos: a.last_frame_pos, currently_avoiding: false },
                    ),
                    ..e
                },
            )
        } else {
            let (sx, sy) = repulsion(w, id, e.position, obstacles, obstacles.len() as int);
            w.with_entity(
                id,
                EntityView {
                    position: advanced(
                        e.position,
                        clamp_displacement(sx),
                        clamp_displacement(sy),
                        step_length(PUSH_SPEED, dt_ms),
                    ),
                    avoidance: Some(
                        Avoidance {
                            last_frame_pos: e.position,
                            currently_avoiding: pushed(w, id, obstacles),
                        },
                    ),
                    ..e
                },
            )
        }
    } else {
        w
    }
}

/// The obstacles found for the entity behind `id`: entry `id` of `hits`, or
/// none where `hits` has no such entry.
pub open spec fn hits_for(hits: Seq<Vec<EntityId>>, id: int) -> Seq<EntityId> {
    if 0 <= id < hits.len() {
        hits[id]@
    } else {
        Seq::empty()
    }
}

/// One tick of avoidance for the entities behind the handles `from..to`, in
/// the order of their handles.
pub open spec fn all_avoided(
    w: WorldView,
    hits: Seq<Vec<EntityId>>,
    from: int,
    to: int,
    dt_ms: u32,
) -> WorldView
    decreases to - from,
{
    if from >= to || from < 0 || from > usize::MAX {
        w
    } else {
        all_avoided(
            avoided(w, from as usize, hits_for(hits, from), dt_ms),
            hits,
            from + 1,
            to,
            dt_ms,
        )
    }
}

/// Whether the world around the entity behind `id` has to be queried this
/// tick.
pub fn needs_query(world: &World, id: EntityId) -> (r: bool)
    ensures
        r == wants_query(world@, id),
{
    match world.get(id) {
        Some(e) => match e.avoidance {
            Some(a) => a.last_frame_pos != e.position,
            None => false,
        },
        None => false,
    }
}

/// The sum of the displacements `(sx, sy)` stays within what `upto`
/// obstacles can add up to.
proof fn lemma_repulsion_bounded(
    w: WorldView,
    id: EntityId,
    pos: Position,
    obstacles: Seq<EntityId>,
    upto: int,
)
    requires
        0 <= upto <= obstacles.len(),
    ensures
        -0x1_0000_0000 * upto <= repulsion(w, id, pos, obstacles, upto).0 <= 0x1_0000_0000 * upto,
        -0x1_0000_0000 * upto <= repulsion(w, id, pos, obstacles, upto).1 <= 0x1_0000_0000 * upto,
    decreases upto,
{
    if upto > 0 {
        lemma_repulsion_bounded(w, id, pos, obstacles, upto - 1);
    }
}

/// One tick of avoidance for the entity behind `id`.
pub fn avoid(world: &mut World, id: EntityId, obstacles: &Vec<EntityId>, dt_ms: u32)
    ensures
        final(world)@ == avoided(old(world)@, id, obstacles@, dt_ms),
{
    let state: Option<(Avoidance, Position)> = match world.get(id) {
        Some(e) => match e.avoidance {
            Some(a) => Some((a, e.position)),
            None => None,
        },
        None => None,
    };
    match state {
        None => {},
        Some((a, pos)) => {
            if a.last_frame_pos == pos {
                let mut e = world.take(id);
                e.avoidance = Some(
                    Avoidance { last_frame_pos: a.last_frame_pos, currently_avoiding: false },
                );
                world.put(id, e);
                proof {
                    World::lemma_put_back(*old(world), *world, id, e);
                }
            } else {
                let mut sx: i128 = 0;
                let mut sy: i128 = 0;
                let mut any: bool = false;
                let mut k: usize = 0;
                while k < obstacles.len()
                    invariant
                        k <= obstacles.len(),
                        world@ == old(world)@,
                        (sx as int, sy as int) == repulsion(world@, id, pos, obstacles@, k as int),
                        any == exists|j: int| 0 <= j < k && pushes(world@, id, #[trigger] obstacles@[j]),
                    decreases obstacles.len() - k,
                {
                    proof {
                        lemma_repulsion_bounded(world@, id, pos, obstacles@, k as int);
                    }
                    let o = obstacles[k];
                    if o != id {
                        match world.position_of(o) {
                            Some(op) => {
                                sx = sx + (pos.x as i128 - op.x as i128);
                                sy = sy + (pos.y as i128 - op.y as i128);
                                any = true;
                            },
                            None => {},
                        }
                    }
                    k += 1;
                }
                proof {
                    lemma_repulsion_bounded(world@, id, pos, obstacles@, k as int);
                }
                let mut e = world.take(id);
                e.position = advance(
                    pos,
                    clamp_to_displacement(sx),
                    clamp_to_displacement(sy),
                    step_len(PUSH_SPEED, dt_ms),
                );
                e.avoidance = Some(Avoidance { last_frame_pos: pos, currently_avoiding: any });
                world.put(id, e);
                proof {
                    World::lemma_put_back(*old(world), *world, id, e);
                }
            }
        },
    }
}

/// One tick of avoidance for every entity. Entry `id` of `hits` holds the
/// entities that overlap the disc around the entity behind `id`, as the
/// spatial query returned them; entries of entities that did not want a
/// query are not read and may be missing.
pub fn avoid_each_other(world: &mut World, hits: &Vec<Vec<EntityId>>, dt_ms: u32)
    ensures
        final(world)@ == all_avoided(
            old(world)@,
            hits@,
            0,
            old(world)@.entities.len() as int,
            dt_ms,
        ),
{
    let none: Vec<EntityId> = Vec::new();
    let n = world.entities.len();
    let mut i: usize = 0;
    while i < n
        invariant
            i <= n,
            n == old(world)@.entities.len(),
            none@.len() == 0,
            all_avoided(world@, hits@, i as int, n as int, dt_ms) == all_avoided(
                old(world)@,
                hits@,
                0,
                n as int,
                dt_ms,
            ),
        decreases n - i,
    {
        if i < hits.len() {
            avoid(world, i, &hits[i], dt_ms);
        } else {
            assert(none@ =~= hits_for(hits@, i as int));
            avoid(world, i, &none, dt_ms);
        }
        i += 1;
    }
}

/// A slot after `dt_ms` milliseconds of drift.
pub open spec fn drifted(slot: Option<EntityView>, dt_ms: u32) -> Option<EntityView> {
    match slot {
        Some(e) => Some(
            match e.move_forward {
                Some(m) => e.at(
                    advanced(
                        e.position,
                        m.heading.x as int,
                        m.heading.y as int,
                        step_length(m.speed, dt_ms),
                    ),
                ),
                None => e,
            },
        ),
        None => None,
    }
}

/// The world after every drifting entity moved along its heading.
pub open spec fn all_drifted(w: WorldView, dt_ms: u32) -> WorldView {
    WorldView {
        entities: Seq::new(w.entities.len(), |i: int| drifted(w.entities[i], dt_ms)),
        ..w
    }
}

/// Moves every drifting entity along its heading.
pub fn move_forward(world: &mut World, dt_ms: u32)
    ensures
        final(world)@ == all_drifted(old(world)@, dt_ms),
{
    let n = world.entities.len();
    let mut i: usize = 0;
    while i < n
        invariant
            i <= n,
            n == old(world).entities.len(),
            n == world.entities.len(),
            world.minerals == old(world).minerals,
            world.boundaries == old(world).boundaries,
            world.damage_events == old(world).damage_events,
            forall|j: int|
                0 <= j < i ==> slot_view(#[trigger] world.entities[j]) == drifted(
                    slot_view(old(world).entities[j]),
                    dt_ms,
                ),
            forall|j: int| i <= j < n ==> #[trigger] world.entities[j] == old(world).entities[j],
        decreases n - i,
    {
        match &mut world.entities[i] {
            Some(e) => {
                match e.move_forward {
                    Some(m) => {
                        e.position = advance(
                            e.position,
                            m.heading.x as i64,
                            m.heading.y as i64,
                            step_len(m.speed, dt_ms),
                        );
                    },
                    None => {},
                }
            },
            None => {},
        }
        i += 1;
    }
    assert(world@.entities =~= all_drifted(old(world)@, dt_ms).entities);
}

} // verus!
