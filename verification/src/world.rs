//! The simulation root: the arena of entities, the stockpile, the play area
//! and the queue of damage that waits to be resolved.

use crate::geometry::Position;
use crate::units::DamageEvent;
use crate::units::Entity;
use crate::units::EntityId;
use crate::units::EntityView;
use vstd::prelude::*;

verus! {

/// The stockpile of mined resource.
#[derive(Clone, Copy, Debug, PartialEq, Eq, Structural)]
pub struct MineralResources {
    pub mineral: u64,
}

/// The stockpile a session starts with.
pub const STARTING_MINERAL: u64 = 50;

impl Default for MineralResources {
    fn default() -> (m: MineralResources)
        ensures
            m.mineral == STARTING_MINERAL,
    {
        MineralResources { mineral: STARTING_MINERAL }
    }
}

/// The play area: the range of `x` and the range of `y`.
#[derive(Clone, Copy, Debug, PartialEq, Eq, Structural)]
pub struct MapBoundaries {
    pub x_min: i32,
    pub x_max: i32,
    pub y_min: i32,
    pub y_max: i32,
}

impl MapBoundaries {
    /// Both ranges hold at least one coordinate.
    pub open spec fn wf(self) -> bool {
        self.x_min < self.x_max && self.y_min < self.y_max
    }

    /// Whether both ranges hold at least one coordinate.
    pub fn is_valid(&self) -> (r: bool)
        ensures
            r == self.wf(),
    {
        self.x_min < self.x_max && self.y_min < self.y_max
    }
}

impl Default for MapBoundaries {
    fn default() -> (b: MapBoundaries)
        ensures
            b.x_min == -1_900_000,
            b.x_max == 1_900_000,
            b.y_min == -1_900_000,
            b.y_max == 1_900_000,
    {
        MapBoundaries { x_min: -1_900_000, x_max: 1_900_000, y_min: -1_900_000, y_max: 1_900_000 }
    }
}

/// The simulation root.
pub struct World {
    pub entities: Vec<Option<Entity>>,
    pub minerals: MineralResources,
    pub boundaries: MapBoundaries,
    pub damage_events: Vec<DamageEvent>,
}

/// What contracts say of a world: the slots of the arena in the order of
/// the handles, the amount in the stockpile, the play area, and the hits that
/// wait, oldest first.
pub struct WorldView {
    pub entities: Seq<Option<EntityView>>,
    pub minerals: u64,
    pub boundaries: MapBoundaries,
    pub damage_events: Seq<DamageEvent>,
}

/// The view of a slot of the arena.
pub open spec fn slot_view(slot: Option<Entity>) -> Option<EntityView> {
    match slot {
        Some(e) => Some(e@),
        None => None,
    }
}

impl View for World {
    type V = WorldView;

    open spec fn view(&self) -> WorldView {
        WorldView {
            entities: Seq::new(self.entities@.len(), |i: int| slot_view(self.entities@[i])),
            minerals: self.minerals.mineral,
            boundaries: self.boundaries,
            damage_events: self.damage_events@,
        }
    }
}

/// Whether the slot holds a depot: an entity marked as mother unit.
pub open spec fn is_depot(slot: Option<EntityView>) -> bool {
    slot matches Some(e) && e.mother_unit is Some
}

/// The first slot at or after `from` that holds a depot.
pub open spec fn first_depot(entities: Seq<Option<EntityView>>, from: int) -> Option<EntityId>
    decreases entities.len() - from,
{
    if from < 0 || from >= entities.len() || from > usize::MAX {
        None
    } else if is_depot(entities[from]) {
        Some(from as usize)
    } else {
        first_depot(entities, from + 1)
    }
}

/// What `first_depot` finds is a depot, and no slot from `from` up to it
/// holds one.
pub proof fn lemma_first_depot_is_first(entities: Seq<Option<EntityView>>, from: int)
    requires
        0 <= from,
    ensures
        match first_depot(entities, from) {
            Some(d) => from <= d < entities.len() && is_depot(entities[d as int]) && forall|k: int|
                from <= k < d ==> !is_depot(#[trigger] entities[k]),
            None => forall|k: int|
                from <= k < entities.len() && k <= usize::MAX ==> !is_depot(#[trigger] entities[k]),
        },
    decreases entities.len() - from,
{
    if from < entities.len() && from <= usize::MAX && !is_depot(entities[from]) {
        lemma_first_depot_is_first(entities, from + 1);
    }
}

impl WorldView {
    /// The entity behind a handle, if it still exists.
    pub open spec fn get(self, id: EntityId) -> Option<EntityView> {
        if id < self.entities.len() {
            self.entities[id as int]
        } else {
            None
        }
    }

    /// Whether an entity stands behind the handle.
    pub open spec fn alive(self, id: EntityId) -> bool {
        self.get(id) is Some
    }

    /// Where the entity behind a handle stands, if it still exists.
    pub open spec fn place(self, id: EntityId) -> Option<Position> {
        match self.get(id) {
            Some(e) => Some(e.position),
            None => None,
        }
    }

    /// The world with `e` behind the handle `id`.
    pub open spec fn with_entity(self, id: EntityId, e: EntityView) -> WorldView {
        WorldView { entities: self.entities.update(id as int, Some(e)), ..self }
    }

    /// The world with `e` added in a new slot.
    pub open spec fn spawned(self, e: EntityView) -> WorldView {
        WorldView { entities: self.entities.push(Some(e)), ..self }
    }

    /// The world without the entity behind `id`. Its slot stays empty.
    pub open spec fn despawned(self, id: EntityId) -> WorldView {
        if id < self.entities.len() {
            WorldView { entities: self.entities.update(id as int, None), ..self }
        } else {
            self
        }
    }

    /// The position of the entity behind `other`, if it exists and is not
    /// `id` itself: what a unit needs to act on another entity.
    pub open spec fn other_position(self, id: EntityId, other: EntityId) -> Option<Position> {
        if other != id && self.get(other) is Some {
            Some(self.get(other)->0.position)
        } else {
            None
        }
    }

    /// The depot: the first entity marked as mother unit.
    pub open spec fn depot(self) -> Option<EntityId> {
        first_depot(self.entities, 0)
    }
}

impl World {
    /// An empty world with the starting stockpile.
    pub fn new(boundaries: MapBoundaries) -> (w: World)
        ensures
            w@.entities.len() == 0,
            w@.minerals == STARTING_MINERAL,
            w@.boundaries == boundaries,
            w@.damage_events.len() == 0,
    {
        World {
            entities: Vec::new(),
            minerals: MineralResources { mineral: STARTING_MINERAL },
            boundaries,
            damage_events: Vec::new(),
        }
    }

    /// Adds an entity and returns its handle.
    pub fn spawn(&mut self, e: Entity) -> (id: EntityId)
        ensures
            final(self)@ == old(self)@.spawned(e@),
            id == old(self)@.entities.len(),
    {
        let id = self.entities.len();
        self.entities.push(Some(e));
        assert(self@.entities =~= old(self)@.spawned(e@).entities);
        id
    }

    /// Removes the entity behind `id`, if there is one.
    pub fn despawn(&mut self, id: EntityId)
        ensures
            final(self)@ == old(self)@.despawned(id),
    {
        if id < self.entities.len() {
            self.entities[id] = None;
            assert(self@.entities =~= old(self)@.despawned(id).entities);
        }
    }

    /// The entity behind `id`, if it still exists.
    pub fn get(&self, id: EntityId) -> (e: Option<&Entity>)
        ensures
            match e {
                Some(r) => self@.get(id) == Some(r@) && id < self.entities.len()
                    && self.entities[id as int] == Some(*r),
                None => self@.get(id) is None,
            },
    {
        if id < self.entities.len() {
            self.entities[id].as_ref()
        } else {
            None
        }
    }

    /// Takes the entity out of its slot, which stays empty until the entity
    /// is put back.
    pub(crate) fn take(&mut self, id: EntityId) -> (e: Entity)
        requires
            old(self)@.alive(id),
        ensures
            e@ == old(self)@.entities[id as int]->0,
            final(self).entities@ == old(self).entities@.update(id as int, None),
            final(self).minerals == old(self).minerals,
            final(self).boundaries == old(self).boundaries,
            final(self).damage_events == old(self).damage_events,
    {
        let slot = self.entities[id].take();
        slot.unwrap()
    }

    /// Puts an entity into a slot.
    pub(crate) fn put(&mut self, id: EntityId, e: Entity)
        requires
            id < old(self).entities.len(),
        ensures
            final(self).entities@ == old(self).entities@.update(id as int, Some(e)),
            final(self).minerals == old(self).minerals,
            final(self).boundaries == old(self).boundaries,
            final(self).damage_events == old(self).damage_events,
    {
        self.entities[id] = Some(e);
    }

    /// The view of a world after the entity taken from slot `id` of `before`
    /// is back in it as `e`.
    pub(crate) proof fn lemma_put_back(before: World, after: World, id: EntityId, e: Entity)
        requires
            id < before.entities.len(),
            after.entities@ == before.entities@.update(id as int, None).update(id as int, Some(e)),
            after.minerals == before.minerals,
            after.boundaries == before.boundaries,
            after.damage_events == before.damage_events,
        ensures
            after@ == before@.with_entity(id, e@),
    {
        assert(after@.entities =~= before@.with_entity(id, e@).entities);
    }

    /// Whether an entity stands behind `id`.
    pub fn is_alive(&self, id: EntityId) -> (r: bool)
        ensures
            r == self@.alive(id),
    {
        id < self.entities.len() && self.entities[id].is_some()
    }

    /// The position of the entity behind `id`.
    pub fn position_of(&self, id: EntityId) -> (p: Option<Position>)
        ensures
            p == self@.place(id),
    {
        if id < self.entities.len() {
            match &self.entities[id] {
                Some(e) => Some(e.position),
                None => None,
            }
        } else {
            None
        }
    }

    /// The position of the entity behind `other`, unless it is gone or is
    /// `id` itself.
    pub fn other_position(&self, id: EntityId, other: EntityId) -> (p: Option<Position>)
        ensures
            p == self@.other_position(id, other),
    {
        if other != id {
            self.position_of(other)
        } else {
            None
        }
    }

    /// The depot: the first entity marked as mother unit.
    pub fn depot(&self) -> (d: Option<EntityId>)
        ensures
            d == self@.depot(),
    {
        let mut i: usize = 0;
        while i < self.entities.len()
            invariant
                i <= self.entities.len(),
                first_depot(self@.entities, 0) == first_depot(self@.entities, i as int),
            decreases self.entities.len() - i,
        {
            match &self.entities[i] {
                Some(e) => {
                    if e.mother_unit.is_some() {
                        return Some(i);
                    }
                },
                None => {},
            }
            i += 1;
        }
        None
    }
}

} // verus!
