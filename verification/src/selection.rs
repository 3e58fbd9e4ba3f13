//! Selection: which of the player's units the next order goes to. A click
//! picks the units under it; a drag picks the units in a rectangle.

use crate::geometry::dist_sq;
use crate::geometry::farther_than;
use crate::geometry::Position;
use crate::orders::CurrentlySelected;
use crate::units::EntityId;
use crate::world::World;
use crate::world::WorldView;
use vstd::prelude::*;

verus! {

/// A press turns into a drag when the pointer is farther than this from
/// where it went down.
pub const DRAG_THRESHOLD: u32 = 10_000;

/// Whether a rectangle is being dragged.
#[derive(Clone, Copy, Debug, PartialEq, Eq, Structural)]
pub enum RectSelectState {
    NotSelecting,
    Selecting,
}

/// The rectangle that is being dragged, from where the pointer went down to
/// where it is.
#[derive(Clone, Copy, Debug, PartialEq, Eq, Structural)]
pub struct RectSelection {
    pub state: RectSelectState,
    pub start_point: Position,
    pub current_point: Position,
}

impl Default for RectSelection {
    fn default() -> (r: RectSelection)
        ensures
            r.state == RectSelectState::NotSelecting,
            r.start_point == (Position { x: 0, y: 0 }),
            r.current_point == (Position { x: 0, y: 0 }),
    {
        RectSelection {
            state: RectSelectState::NotSelecting,
            start_point: Position { x: 0, y: 0 },
            current_point: Position { x: 0, y: 0 },
        }
    }
}

impl RectSelection {
    /// Whether a pointer held down at `pointer` drags a rectangle: it
    /// already did, or it has left the threshold around the start.
    pub open spec fn drags(self, pointer: Position) -> bool {
        self.state == RectSelectState::Selecting || dist_sq(self.start_point, pointer)
            > DRAG_THRESHOLD * DRAG_THRESHOLD
    }

    /// The pointer went down at `pointer`.
    pub fn press(&mut self, pointer: Position)
        ensures
            *final(self) == (RectSelection { start_point: pointer, ..*old(self) }),
    {
        self.start_point = pointer;
    }

    /// The pointer is held down at `pointer`. Says whether a rectangle is
    /// being dragged; if so, the rectangle reaches to `pointer`.
    pub fn drag(&mut self, pointer: Position) -> (dragging: bool)
        ensures
            dragging == old(self).drags(pointer),
            dragging ==> *final(self) == (RectSelection {
                state: RectSelectState::Selecting,
                start_point: old(self).start_point,
                current_point: pointer,
            }),
            !dragging ==> *final(self) == *old(self),
    {
        let selecting = match self.state {
            RectSelectState::Selecting => true,
            RectSelectState::NotSelecting => false,
        };
        if selecting || farther_than(self.start_point, pointer, DRAG_THRESHOLD) {
            self.current_point = pointer;
            self.state = RectSelectState::Selecting;
            true
        } else {
            false
        }
    }

    /// The pointer went up. Says whether a rectangle was dragged, and so
    /// whether the units in it are to be selected.
    pub fn release(&mut self) -> (dragged: bool)
        ensures
            dragged == (old(self).state == RectSelectState::Selecting),
            *final(self) == (RectSelection { state: RectSelectState::NotSelecting, ..*old(self) }),
    {
        let selecting = match self.state {
            RectSelectState::Selecting => true,
            RectSelectState::NotSelecting => false,
        };
        self.state = RectSelectState::NotSelecting;
        selecting
    }
}

/// Whether the entity behind `id` is a unit of the player's.
pub open spec fn players(w: WorldView, id: EntityId) -> bool {
    w.get(id) matches Some(e) && e.team matches Some(t) && t.0 == 0
}

/// The test that tells the other entries from `id`.
pub open spec fn other_than(id: EntityId) -> spec_fn(EntityId) -> bool {
    |e: EntityId| e != id
}

/// The selection without every entry equal to `id`.
pub open spec fn without(s: Seq<EntityId>, id: EntityId) -> Seq<EntityId> {
    s.filter(other_than(id))
}

/// The selection after one of the player's units was clicked. With the
/// modifier the unit joins the selection, or leaves it if it was in it;
/// without, it becomes the whole selection.
pub open spec fn clicked_one(s: Seq<EntityId>, id: EntityId, toggle: bool) -> Seq<EntityId> {
    if !toggle {
        seq![id]
    } else if s.contains(id) {
        without(s, id)
    } else {
        s.push(id)
    }
}

/// The selection after the first `upto` entities under a click were looked
/// at, each of the player's units among them clicked in turn.
pub open spec fn clicked_through(
    w: WorldView,
    s: Seq<EntityId>,
    hits: Seq<EntityId>,
    toggle: bool,
    upto: int,
) -> Seq<EntityId>
    decreases upto,
{
    if upto <= 0 || upto > hits.len() {
        s
    } else {
        let before = clicked_through(w, s, hits, toggle, upto - 1);
        if players(w, hits[upto - 1]) {
            clicked_one(before, hits[upto - 1], toggle)
        } else {
            before
        }
    }
}

/// Whether any of the entities is a unit of the player's.
pub open spec fn any_players(w: WorldView, hits: Seq<EntityId>) -> bool {
    exists|k: int| 0 <= k < hits.len() && players(w, #[trigger] hits[k])
}

/// The selection after a click on `hits`. A click on none of the player's
/// units empties the selection, unless the modifier is held.
pub open spec fn click_selected(
    w: WorldView,
    s: Seq<EntityId>,
    hits: Seq<EntityId>,
    toggle: bool,
) -> Seq<EntityId> {
    if any_players(w, hits) || toggle {
        clicked_through(w, s, hits, toggle, hits.len() as int)
    } else {
        Seq::empty()
    }
}

/// The selection after the first `upto` entities in a rectangle were looked
/// at: each of the player's units among them joins, unless it is in already.
pub open spec fn rect_selected(w: WorldView, s: Seq<EntityId>, hits: Seq<EntityId>, upto: int) -> Seq<
    EntityId,
>
    decreases upto,
{
    if upto <= 0 || upto > hits.len() {
        s
    } else {
        let before = rect_selected(w, s, hits, upto - 1);
        if players(w, hits[upto - 1]) && !before.contains(hits[upto - 1]) {
            before.push(hits[upto - 1])
        } else {
            before
        }
    }
}

/// Whether the entity behind `id` is a unit of the player's.
pub fn is_players(world: &World, id: EntityId) -> (r: bool)
    ensures
        r == players(world@, id),
{
    match world.get(id) {
        Some(e) => match e.team {
            Some(t) => t.0 == 0,
            None => false,
        },
        None => false,
    }
}

/// Whether `id` is selected.
pub fn is_selected(selected: &CurrentlySelected, id: EntityId) -> (r: bool)
    ensures
        r == selected.ent@.contains(id),
{
    let mut i: usize = 0;
    while i < selected.ent.len()
        invariant
            i <= selected.ent.len(),
            forall|j: int| 0 <= j < i ==> selected.ent@[j] != id,
        decreases selected.ent.len() - i,
    {
        if selected.ent[i] == id {
            return true;
        }
        i += 1;
    }
    false
}

/// Takes every entry equal to `id` out of the selection.
pub fn deselect(selected: &mut CurrentlySelected, id: EntityId)
    ensures
        final(selected).ent@ == without(old(selected).ent@, id),
{
    let ghost keep = other_than(id);
    let mut kept: Vec<EntityId> = Vec::new();
    let mut i: usize = 0;
    proof {
        reveal(Seq::filter);
        assert(selected.ent@.take(0).filter(keep) =~= Seq::<EntityId>::empty());
    }
    while i < selected.ent.len()
        invariant
            i <= selected.ent.len(),
            selected.ent@ == old(selected).ent@,
            keep == other_than(id),
            kept@ == selected.ent@.take(i as int).filter(keep),
        decreases selected.ent.len() - i,
    {
        proof {
            reveal(Seq::filter);
            assert(selected.ent@.take(i + 1).drop_last() =~= selected.ent@.take(i as int));
        }
        if selected.ent[i] != id {
            kept.push(selected.ent[i]);
        }
        i += 1;
    }
    assert(selected.ent@.take(i as int) =~= selected.ent@);
    selected.ent = kept;
}

/// Selects by click: `hits` are the entities under the pointer, `toggle`
/// says whether the modifier is held.
pub fn select_click(
    selected: &mut CurrentlySelected,
    world: &World,
    hits: &Vec<EntityId>,
    toggle: bool,
)
    ensures
        final(selected).ent@ == click_selected(world@, old(selected).ent@, hits@, toggle),
{
    let mut any: bool = false;
    let mut k: usize = 0;
    while k < hits.len()
        invariant
            k <= hits.len(),
            any == exists|j: int| 0 <= j < k && players(world@, #[trigger] hits@[j]),
            selected.ent@ == clicked_through(world@, old(selected).ent@, hits@, toggle, k as int),
        decreases hits.len() - k,
    {
        let id = hits[k];
        if is_players(world, id) {
            any = true;
            if !toggle {
                let mut only: Vec<EntityId> = Vec::new();
                only.push(id);
                assert(only@ =~= seq![id]);
                selected.ent = only;
            } else if is_selected(selected, id) {
                deselect(selected, id);
            } else {
                selected.ent.push(id);
            }
        }
        k += 1;
    }
    if !any && !toggle {
        selected.ent = Vec::new();
    }
}

/// Selects by rectangle: `hits` are the entities in the rectangle.
pub fn select_rect(selected: &mut CurrentlySelected, world: &World, hits: &Vec<EntityId>)
    ensures
        final(selected).ent@ == rect_selected(
            world@,
            old(selected).ent@,
            hits@,
            hits@.len() as int,
        ),
{
    let mut k: usize = 0;
    while k < hits.len()
        invariant
            k <= hits.len(),
            selected.ent@ == rect_selected(world@, old(selected).ent@, hits@, k as int),
        decreases hits.len() - k,
    {
        let id = hits[k];
        if is_players(world, id) && !is_selected(selected, id) {
            selected.ent.push(id);
        }
        k += 1;
    }
}

} // verus!
