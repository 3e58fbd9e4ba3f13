//! Order issuance: a click in the world becomes one order for each selected
//! unit.

use crate::geometry::ceil_sqrt;
use crate::geometry::grid_columns;
use crate::geometry::grid_position;
use crate::geometry::grid_slot;
use crate::geometry::lemma_ceil_sqrt_least;
use crate::geometry::Position;
use crate::units::Entity;
use crate::units::EntityId;
use crate::units::EntityView;
use crate::units::UnitCommand;
use crate::world::World;
use crate::world::WorldView;
use vstd::prelude::*;

verus! {

/// The units that orders go to, in the order in which they were selected.
pub struct CurrentlySelected {
    pub ent: Vec<EntityId>,
}

impl Default for CurrentlySelected {
    fn default() -> (s: CurrentlySelected)
        ensures
            s.ent@.len() == 0,
    {
        CurrentlySelected { ent: Vec::new() }
    }
}

/// Whether the entity behind `id` fights for a team other than the player's.
pub open spec fn hostile(w: WorldView, id: EntityId) -> bool {
    w.get(id) matches Some(e) && e.team matches Some(t) && t.0 != 0
}

/// Whether the entity behind `id` is a resource deposit.
pub open spec fn minable(w: WorldView, id: EntityId) -> bool {
    w.get(id) matches Some(e) && e.mineable is Some
}

/// The first clicked entity at or after `from`, other than `unit` itself,
/// that is hostile.
pub open spec fn first_hostile(
    w: WorldView,
    unit: EntityId,
    clicked: Seq<EntityId>,
    from: int,
) -> Option<EntityId>
    decreases clicked.len() - from,
{
    if from < 0 || from >= clicked.len() {
        None
    } else if clicked[from] != unit && hostile(w, clicked[from]) {
        Some(clicked[from])
    } else {
        first_hostile(w, unit, clicked, from + 1)
    }
}

/// The first clicked entity at or after `from`, other than `unit` itself,
/// that is a resource deposit.
pub open spec fn first_minable(
    w: WorldView,
    unit: EntityId,
    clicked: Seq<EntityId>,
    from: int,
) -> Option<EntityId>
    decreases clicked.len() - from,
{
    if from < 0 || from >= clicked.len() {
        None
    } else if clicked[from] != unit && minable(w, clicked[from]) {
        Some(clicked[from])
    } else {
        first_minable(w, unit, clicked, from + 1)
    }
}

/// What a click means to one unit, by priority: attack the first hostile
/// entity under the click; else, for a miner, mine the first deposit under
/// it; else move to the cell `slot` of the formation grid at the click.
pub open spec fn order_for(
    w: WorldView,
    unit: EntityId,
    clicked: Seq<EntityId>,
    click_pos: Position,
    slot: nat,
    columns: nat,
) -> UnitCommand {
    match first_hostile(w, unit, clicked, 0) {
        Some(target) => UnitCommand::AttackEntity(target),
        None => {
            if w.get(unit) matches Some(e) && e.mining is Some && first_minable(
                w,
                unit,
                clicked,
                0,
            ) is Some {
                UnitCommand::MineEntity(first_minable(w, unit, clicked, 0)->0)
            } else {
                UnitCommand::MoveToPos(grid_slot(click_pos, slot, columns))
            }
        },
    }
}

/// The unit after it was given `command`: behind its other orders when
/// appended, as its only order otherwise. An entity that takes no orders
/// stays as it is.
pub open spec fn issued(e: EntityView, command: UnitCommand, append: bool) -> EntityView {
    if e.commands is None {
        e
    } else if append {
        e.queued(command)
    } else {
        e.ordered(seq![command])
    }
}

/// The world after the selected units from `from` on were given their
/// orders, with `slot` the next free cell of the formation grid. A handle
/// without a unit that takes orders is passed over and uses no cell; only a
/// move uses one.
pub open spec fn orders_issued(
    w: WorldView,
    selected: Seq<EntityId>,
    clicked: Seq<EntityId>,
    click_pos: Position,
    append: bool,
    columns: nat,
    from: int,
    slot: nat,
) -> WorldView
    decreases selected.len() - from,
{
    if from < 0 || from >= selected.len() {
        w
    } else {
        let unit = selected[from];
        if w.get(unit) matches Some(e) && e.commands is Some {
            let e = w.get(unit)->0;
            let command = order_for(w, unit, clicked, click_pos, slot, columns);
            orders_issued(
                w.with_entity(unit, issued(e, command, append)),
                selected,
                clicked,
                click_pos,
                append,
                columns,
                from + 1,
                if command is MoveToPos {
                    slot + 1
                } else {
                    slot
                },
            )
        } else {
            orders_issued(w, selected, clicked, click_pos, append, columns, from + 1, slot)
        }
    }
}

/// The world after a click at `click_pos`, with `clicked` the entities under
/// it, was turned into orders for the selected units. The formation grid has
/// as many columns as the square root of the selection's size, rounded up.
pub open spec fn click_ordered(
    w: WorldView,
    selected: Seq<EntityId>,
    clicked: Seq<EntityId>,
    click_pos: Position,
    append: bool,
) -> WorldView {
    orders_issued(w, selected, clicked, click_pos, append, ceil_sqrt(selected.len()), 0, 0)
}

/// Finds the first hostile entity under the click, other than `unit`.
fn find_hostile(world: &World, unit: EntityId, clicked: &Vec<EntityId>) -> (r: Option<EntityId>)
    ensures
        r == first_hostile(world@, unit, clicked@, 0),
{
    let mut i: usize = 0;
    while i < clicked.len()
        invariant
            i <= clicked.len(),
            first_hostile(world@, unit, clicked@, 0) == first_hostile(
                world@,
                unit,
                clicked@,
                i as int,
            ),
        decreases clicked.len() - i,
    {
        let c = clicked[i];
        if c != unit {
            match world.get(c) {
                Some(e) => {
                    match e.team {
                        Some(t) => {
                            if t.0 != 0 {
                                return Some(c);
                            }
                        },
                        None => {},
                    }
                },
                None => {},
            }
        }
        i += 1;
    }
    None
}

/// Finds the first resource deposit under the click, other than `unit`.
fn find_minable(world: &World, unit: EntityId, clicked: &Vec<EntityId>) -> (r: Option<EntityId>)
    ensures
        r == first_minable(world@, unit, clicked@, 0),
{
    let mut i: usize = 0;
    while i < clicked.len()
        invariant
            i <= clicked.len(),
            first_minable(world@, unit, clicked@, 0) == first_minable(
                world@,
                unit,
                clicked@,
                i as int,
            ),
        decreases clicked.len() - i,
    {
        let c = clicked[i];
        if c != unit {
            match world.get(c) {
                Some(e) => {
                    if e.mineable.is_some() {
                        return Some(c);
                    }
                },
                None => {},
            }
        }
        i += 1;
    }
    None
}

/// Gives `command` to a unit.
pub fn issue(e: &mut Entity, command: UnitCommand, append: bool)
    ensures
        final(e)@ == issued(old(e)@, command, append),
{
    if !append {
        e.clear_commands();
    }
    e.push_command(command);
    assert(Seq::<UnitCommand>::empty().push(command) =~= seq![command]);
}

/// Turns a click into orders. `clicked` holds the entities under the click,
/// as the spatial query returned them; `append` says whether the new orders
/// go behind the old ones or replace them.
pub fn command_units(
    world: &mut World,
    selected: &CurrentlySelected,
    clicked: &Vec<EntityId>,
    click_pos: Position,
    append: bool,
)
    ensures
        final(world)@ == click_ordered(old(world)@, selected.ent@, clicked@, click_pos, append),
{
    let columns = grid_columns(selected.ent.len());
    let mut slot: usize = 0;
    let mut i: usize = 0;
    while i < selected.ent.len()
        invariant
            i <= selected.ent.len(),
            slot <= i,
            columns == ceil_sqrt(selected.ent@.len()),
            orders_issued(
                world@,
                selected.ent@,
                clicked@,
                click_pos,
                append,
                columns as nat,
                i as int,
                slot as nat,
            ) == click_ordered(old(world)@, selected.ent@, clicked@, click_pos, append),
        decreases selected.ent.len() - i,
    {
        let unit = selected.ent[i];
        let takes_orders: Option<bool> = match world.get(unit) {
            Some(e) => {
                if e.commands.is_some() {
                    Some(e.mining.is_some())
                } else {
                    None
                }
            },
            None => None,
        };
        match takes_orders {
            Some(miner) => {
                proof {
                    lemma_ceil_sqrt_least(selected.ent@.len(), 0);
                }
                let command = match find_hostile(world, unit, clicked) {
                    Some(target) => UnitCommand::AttackEntity(target),
                    None => {
                        let deposit = if miner {
                            find_minable(world, unit, clicked)
                        } else {
                            None
                        };
                        match deposit {
                            Some(node) => UnitCommand::MineEntity(node),
                            None => UnitCommand::MoveToPos(
                                grid_position(click_pos, slot, columns),
                            ),
                        }
                    },
                };
                give_order(world, unit, command, append);
                match command {
                    UnitCommand::MoveToPos(_) => {
                        slot += 1;
                    },
                    _ => {},
                }
            },
            None => {},
        }
        i += 1;
    }
}

/// Gives `command` to the unit behind `unit`.
fn give_order(world: &mut World, unit: EntityId, command: UnitCommand, append: bool)
    requires
        old(world)@.get(unit) matches Some(e) && e.commands is Some,
    ensures
        final(world)@ == old(world)@.with_entity(
            unit,
            issued(old(world)@.get(unit)->0, command, append),
        ),
{
    let mut e = world.take(unit);
    issue(&mut e, command, append);
    world.put(unit, e);
    proof {
        World::lemma_put_back(*old(world), *world, unit, e);
    }
}

} // verus!
