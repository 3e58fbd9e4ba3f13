//! The kinds of entity that the simulation creates, each as a view and as
//! the function that builds it.

use crate::cooldown::Cooldown;
use crate::cooldown::CooldownView;
use crate::geometry::point;
use crate::geometry::Position;
use crate::units::AggressiveLilPig;
use crate::units::AttackComponent;
use crate::units::AttackView;
use crate::units::Avoidance;
use crate::units::Entity;
use crate::units::EntityView;
use crate::units::FaceMovementDirection;
use crate::units::Health;
use crate::units::MildAggression;
use crate::units::Mineable;
use crate::units::MiningComponent;
use crate::units::MiningView;
use crate::units::MotherUnit;
use crate::units::MoveForward;
use crate::units::Team;
use crate::units::UnitCommandList;
use crate::units::Velocity;
use crate::world::World;
use crate::world::WorldView;
use vstd::prelude::*;

verus! {

/// The origin of the plane.
pub open spec fn origin() -> Position {
    Position { x: 0, y: 0 }
}

/// A unit that fights: full hit points, no orders, an attack that may fire
/// at once, and a part in local repulsion.
pub open spec fn fighter(
    position: Position,
    team: Team,
    health: u32,
    speed: u32,
    attack_range: u32,
    attack_amount: u32,
    cooldown_ms: u64,
) -> EntityView {
    EntityView {
        face: Some(FaceMovementDirection { face_to_pos: origin() }),
        team: Some(team),
        health: Some(Health { current: health, max_health: health }),
        velocity: Some(Velocity(speed)),
        commands: Some(Seq::empty()),
        attack: Some(
            AttackView {
                attack_amount,
                attack_range,
                time_between_attacks: CooldownView::ready(cooldown_ms as nat),
            },
        ),
        avoidance: Some(Avoidance { last_frame_pos: origin(), currently_avoiding: false }),
        ..EntityView::bare(position)
    }
}

/// A hostile unit that fights at close range.
pub open spec fn melee_enemy(position: Position) -> EntityView {
    EntityView {
        aggressive: Some(AggressiveLilPig),
        ..fighter(position, Team(1), 70, 120, 100_000, 10, 500)
    }
}

/// A hostile unit that fights from afar.
pub open spec fn ranged_enemy(position: Position) -> EntityView {
    EntityView {
        aggressive: Some(AggressiveLilPig),
        ..fighter(position, Team(1), 70, 100, 200_000, 10, 500)
    }
}

/// A player's unit that fights from afar.
pub open spec fn ranged_ally(position: Position) -> EntityView {
    EntityView {
        mild_aggression: Some(MildAggression),
        ..fighter(position, Team(0), 150, 150, 300_000, 10, 500)
    }
}

/// A player's unit that fights at close range.
pub open spec fn melee_ally(position: Position) -> EntityView {
    EntityView {
        mild_aggression: Some(MildAggression),
        ..fighter(position, Team(0), 200, 250, 100_000, 10, 750)
    }
}

/// A player's unit that mines.
pub open spec fn miner_ally(position: Position) -> EntityView {
    EntityView {
        mining: Some(
            MiningView {
                current_carry: 0,
                max_carry: 10,
                approach_range: 110_000,
                mine_range: 130_000,
                time_between_mine: CooldownView::fresh(250),
            },
        ),
        ..fighter(position, Team(0), 150, 150, 50_000, 10, 500)
    }
}

/// The player's depot.
pub open spec fn mother_ship(position: Position) -> EntityView {
    EntityView {
        mother_unit: Some(MotherUnit),
        ..fighter(position, Team(0), 300, 50, 300_000, 1, 500)
    }
}

/// A resource deposit of `amount` that drifts along `heading`.
pub open spec fn asteroid(position: Position, heading: Position, speed: u32, amount: u32) -> EntityView {
    EntityView {
        health: Some(Health { current: 100, max_health: 100 }),
        mineable: Some(Mineable { amount }),
        move_forward: Some(MoveForward { speed, heading }),
        ..EntityView::bare(position)
    }
}

/// The drift speed of a deposit that a wave brings.
pub const ASTEROID_SPEED: u32 = 40;

/// What a deposit that a wave brings holds.
pub const ASTEROID_AMOUNT: u32 = 50;

/// Builds a unit that fights.
pub fn spawn_fighter(
    position: Position,
    team: Team,
    health: u32,
    speed: u32,
    attack_range: u32,
    attack_amount: u32,
    cooldown_ms: u64,
) -> (e: Entity)
    ensures
        e@ == fighter(position, team, health, speed, attack_range, attack_amount, cooldown_ms),
{
    let mut e = Entity::bare(position);
    e.face = Some(FaceMovementDirection { face_to_pos: Position { x: 0, y: 0 } });
    e.team = Some(team);
    e.health = Some(Health { current: health, max_health: health });
    e.velocity = Some(Velocity(speed));
    e.commands = Some(UnitCommandList { commands: Vec::new() });
    e.attack = Some(
        AttackComponent {
            attack_amount,
            attack_range,
            time_between_attacks: Cooldown::ready(cooldown_ms),
        },
    );
    e.avoidance = Some(
        Avoidance { last_frame_pos: Position { x: 0, y: 0 }, currently_avoiding: false },
    );
    e
}

/// Builds a hostile unit that fights at close range.
pub fn spawn_melee_enemy(position: Position) -> (e: Entity)
    ensures
        e@ == melee_enemy(position),
{
    let mut e = spawn_fighter(position, Team(1), 70, 120, 100_000, 10, 500);
    e.aggressive = Some(AggressiveLilPig);
    e
}

/// Builds a hostile unit that fights from afar.
pub fn spawn_ranged_enemy(position: Position) -> (e: Entity)
    ensures
        e@ == ranged_enemy(position),
{
    let mut e = spawn_fighter(position, Team(1), 70, 100, 200_000, 10, 500);
    e.aggressive = Some(AggressiveLilPig);
    e
}

/// Builds a player's unit that fights from afar.
pub fn spawn_ranged_ally(position: Position) -> (e: Entity)
    ensures
        e@ == ranged_ally(position),
{
    let mut e = spawn_fighter(position, Team(0), 150, 150, 300_000, 10, 500);
    e.mild_aggression = Some(MildAggression);
    e
}

/// Builds a player's unit that fights at close range.
pub fn spawn_melee_ally(position: Position) -> (e: Entity)
    ensures
        e@ == melee_ally(position),
{
    let mut e = spawn_fighter(position, Team(0), 200, 250, 100_000, 10, 750);
    e.mild_aggression = Some(MildAggression);
    e
}

/// Builds a player's unit that mines.
pub fn spawn_miner_ally(position: Position) -> (e: Entity)
    ensures
        e@ == miner_ally(position),
{
    let mut e = spawn_fighter(position, Team(0), 150, 150, 50_000, 10, 500);
    e.mining = Some(
        MiningComponent {
            current_carry: 0,
            max_carry: 10,
            approach_range: 110_000,
            mine_range: 130_000,
            time_between_mine: Cooldown::from_millis(250),
        },
    );
    e
}

/// Builds the player's depot.
pub fn spawn_mother_ship(position: Position) -> (e: Entity)
    ensures
        e@ == mother_ship(position),
{
    let mut e = spawn_fighter(position, Team(0), 300, 50, 300_000, 1, 500);
    e.mother_unit = Some(MotherUnit);
    e
}

/// Builds a resource deposit.
pub fn spawn_asteroid(position: Position, heading: Position, speed: u32, amount: u32) -> (e: Entity)
    ensures
        e@ == asteroid(position, heading, speed, amount),
{
    let mut e = Entity::bare(position);
    e.health = Some(Health { current: 100, max_health: 100 });
    e.mineable = Some(Mineable { amount });
    e.move_forward = Some(MoveForward { speed, heading });
    e
}

/// The world at the start of a session: the depot, four miners in a row, two
/// ranged units, and one rich deposit that drifts slowly.
pub open spec fn session_started(w: WorldView) -> WorldView {
    w.spawned(mother_ship(point(0, -100_000))).spawned(
        miner_ally(point(-200_000, 45_000)),
    ).spawned(miner_ally(point(-100_000, 45_000))).spawned(
        miner_ally(point(0, 45_000)),
    ).spawned(miner_ally(point(100_000, 45_000))).spawned(
        ranged_ally(point(-100_000, -4_500)),
    ).spawned(ranged_ally(point(0, 0))).spawned(
        asteroid(point(0, 400_000), point(1, 0), 1, 100),
    )
}

/// Puts the starting units and the first deposit into the world.
pub fn spawn_units(world: &mut World)
    ensures
        final(world)@ == session_started(old(world)@),
{
    world.spawn(spawn_mother_ship(Position { x: 0, y: -100_000 }));
    world.spawn(spawn_miner_ally(Position { x: -200_000, y: 45_000 }));
    world.spawn(spawn_miner_ally(Position { x: -100_000, y: 45_000 }));
    world.spawn(spawn_miner_ally(Position { x: 0, y: 45_000 }));
    world.spawn(spawn_miner_ally(Position { x: 100_000, y: 45_000 }));
    world.spawn(spawn_ranged_ally(Position { x: -100_000, y: -4_500 }));
    world.spawn(spawn_ranged_ally(Position { x: 0, y: 0 }));
    world.spawn(spawn_asteroid(Position { x: 0, y: 400_000 }, Position { x: 1, y: 0 }, 1, 100));
}

} // verus!
