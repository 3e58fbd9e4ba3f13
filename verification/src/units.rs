//! The components of an entity and the entity itself, each with the view
//! that contracts speak of.

use crate::cooldown::Cooldown;
use crate::cooldown::CooldownView;
use crate::geometry::Position;
use vstd::prelude::*;

verus! {

/// The handle of an entity: its slot in the world. A slot is never given to
/// a second entity, so a handle whose entity is gone stays dangling.
pub type EntityId = usize;

/// The side an entity fights for. Team 0 is the player's.
#[derive(Clone, Copy, Debug, PartialEq, Eq, Structural)]
pub struct Team(pub i32);

/// Movement speed in world units per second.
#[derive(Clone, Copy, Debug, PartialEq, Eq, Structural)]
pub struct Velocity(pub u32);

/// Hit points.
#[derive(Clone, Copy, Debug, PartialEq, Eq, Structural)]
pub struct Health {
    pub current: u32,
    pub max_health: u32,
}

/// A resource deposit and what is left of it.
#[derive(Clone, Copy, Debug, PartialEq, Eq, Structural)]
pub struct Mineable {
    pub amount: u32,
}

/// Steady drift along `heading`, a direction of any non-zero length.
#[derive(Clone, Copy, Debug, PartialEq, Eq, Structural)]
pub struct MoveForward {
    pub speed: u32,
    pub heading: Position,
}

/// Takes part in local repulsion. `last_frame_pos` is where the entity stood
/// when it was last examined.
#[derive(Clone, Copy, Debug, PartialEq, Eq, Structural)]
pub struct Avoidance {
    pub last_frame_pos: Position,
    pub currently_avoiding: bool,
}

/// The point an entity turns to face.
#[derive(Clone, Copy, Debug, PartialEq, Eq, Structural)]
pub struct FaceMovementDirection {
    pub face_to_pos: Position,
}

/// A projectile in flight.
#[derive(Clone, Copy, Debug, PartialEq, Eq, Structural)]
pub struct FlyingBullet {
    pub target: EntityId,
    pub damage: u32,
    pub speed: u32,
    pub shooter: EntityId,
}

/// Marks the depot: the unit that receives cargo and builds units.
#[derive(Clone, Copy, Debug, PartialEq, Eq, Structural)]
pub struct MotherUnit;

/// Marks a unit that, when idle, attacks the closest enemy however far.
#[derive(Clone, Copy, Debug, PartialEq, Eq, Structural)]
pub struct AggressiveLilPig;

/// Marks a unit that, when idle, attacks the closest enemy within sight.
#[derive(Clone, Copy, Debug, PartialEq, Eq, Structural)]
pub struct MildAggression;

/// One order in a unit's queue. Orders name entities by handle; the entity
/// is looked up when the order runs.
#[derive(Clone, Copy, Debug, PartialEq, Eq, Structural)]
pub enum UnitCommand {
    MoveToPos(Position),
    AttackEntity(EntityId),
    MineEntity(EntityId),
    ReturnCargoToUnit(EntityId, Option<EntityId>),
    Completed,
}

/// A hit that waits to be resolved: who was hit, how hard, and by whom.
#[derive(Clone, Copy, Debug, PartialEq, Eq, Structural)]
pub struct DamageEvent {
    pub target: EntityId,
    pub dmg_amount: u32,
    pub damager: EntityId,
}

/// A unit's orders, first in first out: the front is the active order.
pub struct UnitCommandList {
    pub commands: Vec<UnitCommand>,
}

impl View for UnitCommandList {
    type V = Seq<UnitCommand>;

    open spec fn view(&self) -> Seq<UnitCommand> {
        self.commands@
    }
}

/// The ability to attack: damage per hit, reach, and the countdown between
/// hits.
pub struct AttackComponent {
    pub attack_amount: u32,
    pub attack_range: u32,
    pub time_between_attacks: Cooldown,
}

/// What contracts say of an attack ability.
pub struct AttackView {
    pub attack_amount: u32,
    pub attack_range: u32,
    pub time_between_attacks: CooldownView,
}

impl View for AttackComponent {
    type V = AttackView;

    open spec fn view(&self) -> AttackView {
        AttackView {
            attack_amount: self.attack_amount,
            attack_range: self.attack_range,
            time_between_attacks: self.time_between_attacks@,
        }
    }
}

/// The ability to mine: the cargo carried and its limit, the distance beyond
/// which the miner still closes in on a deposit, the distance within which
/// it mines, and the countdown between two units mined.
pub struct MiningComponent {
    pub current_carry: u32,
    pub max_carry: u32,
    pub approach_range: u32,
    pub mine_range: u32,
    pub time_between_mine: Cooldown,
}

/// What contracts say of a mining ability.
pub struct MiningView {
    pub current_carry: u32,
    pub max_carry: u32,
    pub approach_range: u32,
    pub mine_range: u32,
    pub time_between_mine: CooldownView,
}

impl View for MiningComponent {
    type V = MiningView;

    open spec fn view(&self) -> MiningView {
        MiningView {
            current_carry: self.current_carry,
            max_carry: self.max_carry,
            approach_range: self.approach_range,
            mine_range: self.mine_range,
            time_between_mine: self.time_between_mine@,
        }
    }
}

/// Anything that lives in the world: a position and the components it has.
pub struct Entity {
    pub position: Position,
    pub face: Option<FaceMovementDirection>,
    pub team: Option<Team>,
    pub health: Option<Health>,
    pub velocity: Option<Velocity>,
    pub commands: Option<UnitCommandList>,
    pub attack: Option<AttackComponent>,
    pub mining: Option<MiningComponent>,
    pub avoidance: Option<Avoidance>,
    pub mineable: Option<Mineable>,
    pub move_forward: Option<MoveForward>,
    pub bullet: Option<FlyingBullet>,
    pub mother_unit: Option<MotherUnit>,
    pub aggressive: Option<AggressiveLilPig>,
    pub mild_aggression: Option<MildAggression>,
}

/// What contracts say of an entity: its components, with orders as a
/// sequence and countdowns by their view.
pub struct EntityView {
    pub position: Position,
    pub face: Option<FaceMovementDirection>,
    pub team: Option<Team>,
    pub health: Option<Health>,
    pub velocity: Option<Velocity>,
    pub commands: Option<Seq<UnitCommand>>,
    pub attack: Option<AttackView>,
    pub mining: Option<MiningView>,
    pub avoidance: Option<Avoidance>,
    pub mineable: Option<Mineable>,
    pub move_forward: Option<MoveForward>,
    pub bullet: Option<FlyingBullet>,
    pub mother_unit: Option<MotherUnit>,
    pub aggressive: Option<AggressiveLilPig>,
    pub mild_aggression: Option<MildAggression>,
}

impl View for Entity {
    type V = EntityView;

    open spec fn view(&self) -> EntityView {
        EntityView {
            position: self.position,
            face: self.face,
            team: self.team,
            health: self.health,
            velocity: self.velocity,
            commands: match self.commands {
                Some(c) => Some(c@),
                None => None,
            },
            attack: match self.attack {
                Some(a) => Some(a@),
                None => None,
            },
            mining: match self.mining {
                Some(m) => Some(m@),
                None => None,
            },
            avoidance: self.avoidance,
            mineable: self.mineable,
            move_forward: self.move_forward,
            bullet: self.bullet,
            mother_unit: self.mother_unit,
            aggressive: self.aggressive,
            mild_aggression: self.mild_aggression,
        }
    }
}

impl EntityView {
    /// An entity with a position and nothing else.
    pub open spec fn bare(position: Position) -> EntityView {
        EntityView {
            position,
            face: None,
            team: None,
            health: None,
            velocity: None,
            commands: None,
            attack: None,
            mining: None,
            avoidance: None,
            mineable: None,
            move_forward: None,
            bullet: None,
            mother_unit: None,
            aggressive: None,
            mild_aggression: None,
        }
    }

    /// The entity turned to face `target`, if it can turn.
    pub open spec fn facing(self, target: Position) -> EntityView {
        if self.face is Some {
            EntityView { face: Some(FaceMovementDirection { face_to_pos: target }), ..self }
        } else {
            self
        }
    }

    /// The entity moved to `position`.
    pub open spec fn at(self, position: Position) -> EntityView {
        EntityView { position, ..self }
    }

    /// The entity with `command` in place of its active order.
    pub open spec fn with_front(self, command: UnitCommand) -> EntityView {
        EntityView { commands: Some(self.commands->0.update(0, command)), ..self }
    }

    /// The entity without its active order.
    pub open spec fn popped(self) -> EntityView {
        EntityView { commands: Some(self.commands->0.drop_first()), ..self }
    }

    /// The entity with `command` added behind its other orders.
    pub open spec fn queued(self, command: UnitCommand) -> EntityView {
        EntityView { commands: Some(self.commands->0.push(command)), ..self }
    }

    /// The entity with `commands` as its orders.
    pub open spec fn ordered(self, commands: Seq<UnitCommand>) -> EntityView {
        EntityView { commands: Some(commands), ..self }
    }

    /// The entity with `attack` as its attack ability.
    pub open spec fn with_attack(self, attack: AttackView) -> EntityView {
        EntityView { attack: Some(attack), ..self }
    }

    /// The entity with `mining` as its mining ability.
    pub open spec fn with_mining(self, mining: MiningView) -> EntityView {
        EntityView { mining: Some(mining), ..self }
    }

    /// The entity's speed; an entity without one does not move.
    pub open spec fn speed(self) -> u32 {
        match self.velocity {
            Some(v) => v.0,
            None => 0,
        }
    }

    /// Whether the entity has an order to carry out.
    pub open spec fn busy(self) -> bool {
        self.commands matches Some(c) && c.len() > 0
    }

    /// Whether the entity has orders but none to carry out.
    pub open spec fn idle(self) -> bool {
        self.commands matches Some(c) && c.len() == 0
    }
}

impl AttackView {
    /// The ability after `dt_ms` milliseconds.
    pub open spec fn ticked(self, dt_ms: nat) -> AttackView {
        AttackView { time_between_attacks: self.time_between_attacks.ticked(dt_ms), ..self }
    }

    /// The ability right after a shot.
    pub open spec fn fired(self) -> AttackView {
        AttackView { time_between_attacks: self.time_between_attacks.restarted(), ..self }
    }
}

impl MiningView {
    /// The ability after `dt_ms` milliseconds.
    pub open spec fn ticked(self, dt_ms: nat) -> MiningView {
        MiningView { time_between_mine: self.time_between_mine.ticked(dt_ms), ..self }
    }

    /// The ability right after one unit was mined.
    pub open spec fn mined(self) -> MiningView {
        MiningView {
            current_carry: (self.current_carry + 1) as u32,
            time_between_mine: self.time_between_mine.restarted(),
            ..self
        }
    }

    /// The ability with the cargo unloaded.
    pub open spec fn unloaded(self) -> MiningView {
        MiningView { current_carry: 0, ..self }
    }
}

impl Entity {
    /// An entity with a position and nothing else.
    pub fn bare(position: Position) -> (e: Entity)
        ensures
            e@ == EntityView::bare(position),
    {
        Entity {
            position,
            face: None,
            team: None,
            health: None,
            velocity: None,
            commands: None,
            attack: None,
            mining: None,
            avoidance: None,
            mineable: None,
            move_forward: None,
            bullet: None,
            mother_unit: None,
            aggressive: None,
            mild_aggression: None,
        }
    }

    /// Turns the entity to face `target`, if it can turn.
    pub fn turn_to(&mut self, target: Position)
        ensures
            final(self)@ == old(self)@.facing(target),
    {
        if self.face.is_some() {
            self.face = Some(FaceMovementDirection { face_to_pos: target });
        }
    }

    /// Puts `command` in place of the active order, if there is one.
    pub fn set_front(&mut self, command: UnitCommand)
        ensures
            final(self)@ == (if old(self)@.busy() {
                old(self)@.with_front(command)
            } else {
                old(self)@
            }),
    {
        match &mut self.commands {
            Some(list) => {
                if list.commands.len() > 0 {
                    list.commands[0] = command;
                } else {
                    assert(list.commands@ =~= old(self)@.commands->0);
                }
            },
            None => {},
        }
    }

    /// Removes the active order, if there is one.
    pub fn pop_front(&mut self)
        ensures
            final(self)@ == (if old(self)@.busy() {
                old(self)@.popped()
            } else {
                old(self)@
            }),
    {
        match &mut self.commands {
            Some(list) => {
                if list.commands.len() > 0 {
                    list.commands.remove(0);
                    assert(list.commands@ =~= old(self)@.commands->0.drop_first());
                } else {
                    assert(list.commands@ =~= old(self)@.commands->0);
                }
            },
            None => {},
        }
    }

    /// Adds `command` behind the other orders, if the entity takes orders.
    pub fn push_command(&mut self, command: UnitCommand)
        ensures
            final(self)@ == (if old(self)@.commands is Some {
                old(self)@.queued(command)
            } else {
                old(self)@
            }),
    {
        match &mut self.commands {
            Some(list) => {
                list.commands.push(command);
            },
            None => {},
        }
    }

    /// Drops every order.
    pub fn clear_commands(&mut self)
        ensures
            final(self)@ == (if old(self)@.commands is Some {
                old(self)@.ordered(Seq::empty())
            } else {
                old(self)@
            }),
    {
        match &mut self.commands {
            Some(list) => {
                list.commands.clear();
            },
            None => {},
        }
    }

    /// The active order, if there is one.
    pub fn front(&self) -> (c: Option<UnitCommand>)
        ensures
            c == (if self@.busy() {
                Some(self@.commands->0[0])
            } else {
                None
            }),
    {
        match &self.commands {
            Some(list) => {
                if list.commands.len() > 0 {
                    Some(list.commands[0])
                } else {
                    None
                }
            },
            None => None,
        }
    }
}

} // verus!
