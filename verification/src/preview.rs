//! What the world shows of the orders of the selected units: for each unit
//! the points its orders lead to, in order, and where the path to them
//! begins.

use crate::geometry::Position;
use crate::orders::CurrentlySelected;
use crate::units::EntityId;
use crate::units::EntityView;
use crate::units::UnitCommand;
use crate::world::World;
use crate::world::WorldView;
use vstd::prelude::*;

verus! {

/// The path that a unit's orders describe.
pub struct CommandPreview {
    pub unit: EntityId,
    pub start: Option<Position>,
    pub waypoints: Vec<Position>,
}

/// The point an order leads to: the goal of a move, or the place of the
/// entity that the order names, if it still exists. A completed order leads
/// nowhere.
pub open spec fn waypoint(w: WorldView, command: UnitCommand) -> Option<Position> {
    match command {
        UnitCommand::MoveToPos(p) => Some(p),
        UnitCommand::AttackEntity(t) => w.place(t),
        UnitCommand::MineEntity(t) => w.place(t),
        UnitCommand::ReturnCargoToUnit(t, _) => w.place(t),
        UnitCommand::Completed => None,
    }
}

/// The function that maps an order to the point it leads to.
pub open spec fn waypoint_in(w: WorldView) -> spec_fn(UnitCommand) -> Option<Position> {
    |c: UnitCommand| waypoint(w, c)
}

/// Where the path of a unit begins: at the unit, except that the path of a
/// unit whose only order is a move or an attack, or is completed, has no
/// beginning.
pub open spec fn path_start(e: EntityView) -> Option<Position> {
    let commands = e.commands->0;
    if commands.len() == 1 && !(commands[0] is MineEntity || commands[0] is ReturnCargoToUnit) {
        None
    } else {
        Some(e.position)
    }
}

/// Whether `p` is the preview of the orders of the entity behind `unit`.
pub open spec fn previews(w: WorldView, unit: EntityId, p: Option<CommandPreview>) -> bool {
    if w.get(unit) matches Some(e) && e.commands is Some {
        &&& p matches Some(preview)
        &&& preview.unit == unit
        &&& preview.start == path_start(w.get(unit)->0)
        &&& preview.waypoints@ == w.get(unit)->0.commands->0.filter_map(waypoint_in(w))
    } else {
        p is None
    }
}

/// The point an order leads to.
pub fn waypoint_of(world: &World, command: UnitCommand) -> (p: Option<Position>)
    ensures
        p == waypoint(world@, command),
{
    match command {
        UnitCommand::MoveToPos(p) => Some(p),
        UnitCommand::AttackEntity(t) => world.position_of(t),
        UnitCommand::MineEntity(t) => world.position_of(t),
        UnitCommand::ReturnCargoToUnit(t, _) => world.position_of(t),
        UnitCommand::Completed => None,
    }
}

/// The preview of the orders of the entity behind `unit`, if it takes
/// orders.
pub fn command_preview(world: &World, unit: EntityId) -> (p: Option<CommandPreview>)
    ensures
        previews(world@, unit, p),
{
    match world.get(unit) {
        None => None,
        Some(e) => {
            match &e.commands {
                None => None,
                Some(list) => {
                    let ghost f = waypoint_in(world@);
                    let n = list.commands.len();
                    let start = if n == 1 {
                        match list.commands[0] {
                            UnitCommand::MineEntity(_) => Some(e.position),
                            UnitCommand::ReturnCargoToUnit(_, _) => Some(e.position),
                            _ => None,
                        }
                    } else {
                        Some(e.position)
                    };
                    let mut waypoints: Vec<Position> = Vec::new();
                    let mut i: usize = 0;
                    assert(list.commands@.take(0).filter_map(f) =~= Seq::<Position>::empty());
                    while i < n
                        invariant
                            i <= n,
                            n == list.commands@.len(),
                            f == waypoint_in(world@),
                            waypoints@ == list.commands@.take(i as int).filter_map(f),
                        decreases n - i,
                    {
                        proof {
                            assert(list.commands@.take(i + 1).drop_last() =~= list.commands@.take(
                                i as int,
                            ));
                        }
                        match waypoint_of(world, list.commands[i]) {
                            Some(p) => {
                                waypoints.push(p);
                            },
                            None => {},
                        }
                        i += 1;
                    }
                    assert(list.commands@.take(n as int) =~= list.commands@);
                    Some(CommandPreview { unit, start, waypoints })
                },
            }
        },
    }
}

/// The previews of the orders of the selected units: entry `i` is the
/// preview for entry `i` of the selection, or nothing if that entity takes
/// no orders.
pub fn display_command_of_selection(world: &World, selected: &CurrentlySelected) -> (r: Vec<
    Option<CommandPreview>,
>)
    ensures
        r@.len() == selected.ent@.len(),
        forall|i: int| 0 <= i < r@.len() ==> previews(world@, selected.ent@[i], #[trigger] r@[i]),
{
    let mut r: Vec<Option<CommandPreview>> = Vec::new();
    let mut i: usize = 0;
    while i < selected.ent.len()
        invariant
            i <= selected.ent.len(),
            r@.len() == i,
            forall|j: int| 0 <= j < i ==> previews(world@, selected.ent@[j], #[trigger] r@[j]),
        decreases selected.ent.len() - i,
    {
        r.push(command_preview(world, selected.ent[i]));
        i += 1;
    }
    r
}

} // verus!
