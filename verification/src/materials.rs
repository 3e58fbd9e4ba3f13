//! Resource deposits leave the world when they are mined out or have
//! drifted out of the play area.

use crate::geometry::Position;
use crate::units::EntityView;
use crate::world::slot_view;
use crate::world::MapBoundaries;
use crate::world::World;
use crate::world::WorldView;
use vstd::prelude::*;

verus! {

/// How far outside the play area a deposit may drift before it is removed.
pub const DESPAWN_MARGIN: i32 = 50_000;

/// Whether `p` lies outside the play area by more than the margin.
pub open spec fn outside(b: MapBoundaries, p: Position) -> bool {
    ||| p.x < b.x_min - DESPAWN_MARGIN
    ||| p.x > b.x_max + DESPAWN_MARGIN
    ||| p.y < b.y_min - DESPAWN_MARGIN
    ||| p.y > b.y_max + DESPAWN_MARGIN
}

/// Whether the slot holds a deposit that is mined out or has left the play
/// area.
pub open spec fn spent(slot: Option<EntityView>, b: MapBoundaries) -> bool {
    slot matches Some(e) && e.mineable matches Some(m) && (m.amount == 0 || outside(
        b,
        e.position,
    ))
}

/// The world without its spent deposits.
pub open spec fn asteroids_deleted(w: WorldView) -> WorldView {
    WorldView {
        entities: Seq::new(
            w.entities.len(),
            |i: int|
                if spent(w.entities[i], w.boundaries) {
                    None
                } else {
                    w.entities[i]
                },
        ),
        ..w
    }
}

/// Whether `p` lies outside the play area by more than the margin.
pub fn is_outside(b: &MapBoundaries, p: Position) -> (r: bool)
    ensures
        r == outside(*b, p),
{
    let margin = DESPAWN_MARGIN as i64;
    (p.x as i64) < b.x_min as i64 - margin || (p.x as i64) > b.x_max as i64 + margin || (p.y as i64)
        < b.y_min as i64 - margin || (p.y as i64) > b.y_max as i64 + margin
}

/// Removes every deposit that is mined out or has left the play area.
pub fn delete_asteroids(world: &mut World)
    ensures
        final(world)@ == asteroids_deleted(old(world)@),
{
    let n = world.entities.len();
    let mut i: usize = 0;
    while i < n
        invariant
            i <= n,
            n == old(world).entities.len(),
            n == world.entities.len(),
            world.minerals == old(world).minerals,
            world.boundaries == old(world).boundaries,
            world.damage_events == old(world).damage_events,
            forall|j: int|
                0 <= j < i ==> slot_view(#[trigger] world.entities[j]) == (if spent(
                    slot_view(old(world).entities[j]),
                    old(world).boundaries,
                ) {
                    None
                } else {
                    slot_view(old(world).entities[j])
                }),
            forall|j: int| i <= j < n ==> #[trigger] world.entities[j] == old(world).entities[j],
        decreases n - i,
    {
        let gone = match &world.entities[i] {
            Some(e) => match e.mineable {
                Some(m) => m.amount == 0 || is_outside(&world.boundaries, e.position),
                None => false,
            },
            None => false,
        };
        if gone {
            world.entities[i] = None;
        }
        i += 1;
    }
    assert(world@.entities =~= asteroids_deleted(old(world)@).entities);
}

} // verus!
