//! The build queue: paid orders for new units wait in line, and one
//! countdown lets one of them through at a time.

use crate::cooldown::Cooldown;
use crate::cooldown::CooldownView;
use crate::geometry::clamp_coord;
use crate::geometry::clamp_to_coord;
use crate::geometry::Position;
use crate::random::gen_range;
use crate::roster::melee_ally;
use crate::roster::miner_ally;
use crate::roster::ranged_ally;
use crate::roster::spawn_melee_ally;
use crate::roster::spawn_miner_ally;
use crate::roster::spawn_ranged_ally;
use crate::units::Entity;
use crate::units::EntityView;
use crate::world::MineralResources;
use crate::world::World;
use crate::world::WorldView;
use std::collections::VecDeque;
use vstd::prelude::*;

verus! {

/// The price of a miner.
pub const MINER_COST: u64 = 10;

/// The price of a unit that fights at close range.
pub const MELEE_COST: u64 = 30;

/// The price of a unit that fights from afar.
pub const RANGED_COST: u64 = 60;

/// The time one unit takes to build, in milliseconds.
pub const BUILD_MS: u64 = 5_000;

/// How many orders may wait.
pub const MAX_REQUESTS: usize = 5;

/// How far above the depot a new unit appears.
pub const BUILD_OFFSET: i32 = 60_000;

/// The bound of the random sideways shift of a new unit.
pub const BUILD_JITTER: i32 = 30_000;

/// An order for a unit of some kind, with the handle of the placeholder
/// that stands for it on screen, if it has one.
#[derive(Clone, Copy, Debug, PartialEq, Eq, Structural)]
pub enum BuildOrder {
    Miner(Option<u64>),
    Melee(Option<u64>),
    Ranged(Option<u64>),
}

/// The price of an order.
pub open spec fn cost(order: BuildOrder) -> u64 {
    match order {
        BuildOrder::Miner(_) => MINER_COST,
        BuildOrder::Melee(_) => MELEE_COST,
        BuildOrder::Ranged(_) => RANGED_COST,
    }
}

/// The unit that an order pays for, standing at `position`.
pub open spec fn built_unit(order: BuildOrder, position: Position) -> EntityView {
    match order {
        BuildOrder::Miner(_) => miner_ally(position),
        BuildOrder::Melee(_) => melee_ally(position),
        BuildOrder::Ranged(_) => ranged_ally(position),
    }
}

/// Where a new unit appears: above the depot, shifted sideways by `jitter`.
pub open spec fn build_site(depot: Position, jitter: int) -> Position {
    Position { x: clamp_coord(depot.x + jitter), y: clamp_coord(depot.y + BUILD_OFFSET) }
}

/// The waiting orders, the countdown that lets them through, and the number
/// of orders that may wait.
pub struct BuildQueue {
    pub queue: VecDeque<BuildOrder>,
    pub build_time: Cooldown,
    pub max_request: usize,
}

/// What contracts say of a build queue: the waiting orders, oldest first.
pub struct BuildQueueView {
    pub queue: Seq<BuildOrder>,
    pub build_time: CooldownView,
    pub max_request: usize,
}

impl View for BuildQueue {
    type V = BuildQueueView;

    open spec fn view(&self) -> BuildQueueView {
        BuildQueueView {
            queue: self.queue@,
            build_time: self.build_time@,
            max_request: self.max_request,
        }
    }
}

impl BuildQueueView {
    /// An order is accepted while fewer orders wait than may wait and the
    /// stockpile covers its price.
    pub open spec fn accepts(self, stock: u64, order: BuildOrder) -> bool {
        self.queue.len() < self.max_request && stock >= cost(order)
    }

    /// The queue with `order` at its end.
    pub open spec fn with_order(self, order: BuildOrder) -> BuildQueueView {
        BuildQueueView { queue: self.queue.push(order), ..self }
    }

    /// The queue and the stockpile after `order` was asked for: an accepted
    /// order is paid at once and waits; a rejected one changes nothing.
    pub open spec fn requested(self, stock: u64, order: BuildOrder) -> (BuildQueueView, u64) {
        if self.accepts(stock, order) {
            (self.with_order(order), (stock - cost(order)) as u64)
        } else {
            (self, stock)
        }
    }

    /// The queue and the stockpile after `order` was asked for, if it was.
    pub open spec fn requested_if(self, stock: u64, pressed: bool, order: BuildOrder) -> (
        BuildQueueView,
        u64,
    ) {
        if pressed {
            self.requested(stock, order)
        } else {
            (self, stock)
        }
    }

    /// Whether a unit is finished when `dt_ms` more milliseconds have
    /// passed: orders wait and the countdown finishes.
    pub open spec fn due(self, dt_ms: u32) -> bool {
        self.queue.len() > 0 && self.build_time.ticked(dt_ms as nat).finished
    }

    /// The queue after `dt_ms` more milliseconds. The countdown runs only
    /// while orders wait. When it finishes it starts over, and the first
    /// order leaves the queue if the world has a depot.
    pub open spec fn ticked(self, has_depot: bool, dt_ms: u32) -> BuildQueueView {
        if self.queue.len() == 0 {
            self
        } else if self.due(dt_ms) {
            BuildQueueView {
                queue: if has_depot {
                    self.queue.drop_first()
                } else {
                    self.queue
                },
                build_time: self.build_time.ticked(dt_ms as nat).restarted(),
                max_request: self.max_request,
            }
        } else {
            BuildQueueView { build_time: self.build_time.ticked(dt_ms as nat), ..self }
        }
    }
}

/// The world after the unit that `order` pays for appeared near the depot,
/// shifted sideways by `jitter`. Without a depot nothing appears.
pub open spec fn build_completed(w: WorldView, order: BuildOrder, jitter: int) -> WorldView {
    match w.depot() {
        Some(d) => {
            if w.get(d) is Some {
                w.spawned(built_unit(order, build_site(w.get(d)->0.position, jitter)))
            } else {
                w
            }
        },
        None => w,
    }
}

impl Default for BuildQueue {
    fn default() -> (q: BuildQueue)
        ensures
            q@.queue.len() == 0,
            q@.build_time == CooldownView::fresh(BUILD_MS as nat),
            q@.max_request == MAX_REQUESTS,
    {
        BuildQueue {
            queue: VecDeque::new(),
            build_time: Cooldown::from_millis(BUILD_MS),
            max_request: MAX_REQUESTS,
        }
    }
}

/// The price of an order.
pub fn price(order: BuildOrder) -> (c: u64)
    ensures
        c == cost(order),
{
    match order {
        BuildOrder::Miner(_) => MINER_COST,
        BuildOrder::Melee(_) => MELEE_COST,
        BuildOrder::Ranged(_) => RANGED_COST,
    }
}

/// Builds the unit that an order pays for.
pub fn spawn_built_unit(order: BuildOrder, position: Position) -> (e: Entity)
    ensures
        e@ == built_unit(order, position),
{
    match order {
        BuildOrder::Miner(_) => spawn_miner_ally(position),
        BuildOrder::Melee(_) => spawn_melee_ally(position),
        BuildOrder::Ranged(_) => spawn_ranged_ally(position),
    }
}

impl BuildQueue {
    /// Whether `order` would be accepted with `stock` in the stockpile.
    pub fn can_accept(&self, stock: u64, order: BuildOrder) -> (r: bool)
        ensures
            r == self@.accepts(stock, order),
    {
        self.queue.len() < self.max_request && stock >= price(order)
    }

    /// Asks for a unit. An accepted order is paid at once and waits at the
    /// end of the queue; a rejected one changes nothing.
    pub fn request(&mut self, minerals: &mut MineralResources, order: BuildOrder) -> (accepted:
        bool)
        ensures
            accepted == old(self)@.accepts(old(minerals).mineral, order),
            (final(self)@, final(minerals).mineral) == old(self)@.requested(
                old(minerals).mineral,
                order,
            ),
    {
        if self.can_accept(minerals.mineral, order) {
            minerals.mineral = minerals.mineral - price(order);
            self.queue.push_back(order);
            true
        } else {
            false
        }
    }
}

/// Asks for a miner, a close-range unit and a ranged unit, in this order,
/// each only if its key was pressed.
pub fn handle_add_to_build_queue(
    queue: &mut BuildQueue,
    minerals: &mut MineralResources,
    miner: bool,
    melee: bool,
    ranged: bool,
)
    ensures
        ({
            let a = old(queue)@.requested_if(
                old(minerals).mineral,
                miner,
                BuildOrder::Miner(None),
            );
            let b = a.0.requested_if(a.1, melee, BuildOrder::Melee(None));
            (final(queue)@, final(minerals).mineral) == b.0.requested_if(
                b.1,
                ranged,
                BuildOrder::Ranged(None),
            )
        }),
{
    if miner {
        queue.request(minerals, BuildOrder::Miner(None));
    }
    if melee {
        queue.request(minerals, BuildOrder::Melee(None));
    }
    if ranged {
        queue.request(minerals, BuildOrder::Ranged(None));
    }
}

/// Lets the unit that `order` pays for appear near the depot.
pub fn complete_build(world: &mut World, order: BuildOrder, jitter: i32)
    ensures
        final(world)@ == build_completed(old(world)@, order, jitter as int),
{
    match world.depot() {
        Some(d) => {
            match world.position_of(d) {
                Some(p) => {
                    let site = Position {
                        x: clamp_to_coord(p.x as i128 + jitter as i128),
                        y: clamp_to_coord(p.y as i128 + BUILD_OFFSET as i128),
                    };
                    world.spawn(spawn_built_unit(order, site));
                },
                None => {},
            }
        },
        None => {},
    }
}

/// One tick of the build queue. While orders wait the countdown runs. When
/// it finishes it starts over and, if the world has a depot, the first order
/// leaves the queue and its unit appears near the depot, shifted sideways at
/// random. Returns the order that was finished.
pub fn build_requested_units(world: &mut World, queue: &mut BuildQueue, dt_ms: u32) -> (done:
    Option<BuildOrder>)
    ensures
        final(queue)@ == old(queue)@.ticked(old(world)@.depot() is Some, dt_ms),
        done == (if old(queue)@.due(dt_ms) && old(world)@.depot() is Some {
            Some(old(queue)@.queue[0])
        } else {
            None
        }),
        done is None ==> final(world)@ == old(world)@,
        done matches Some(order) ==> exists|jitter: int|
            -BUILD_JITTER <= jitter < BUILD_JITTER && final(world)@ == #[trigger] build_completed(
                old(world)@,
                order,
                jitter,
            ),
{
    if queue.queue.len() == 0 {
        return None;
    }
    queue.build_time.tick(dt_ms);
    if !queue.build_time.finished() {
        return None;
    }
    queue.build_time.reset();
    if world.depot().is_none() {
        return None;
    }
    let jitter = gen_range(-(BUILD_JITTER as i64), BUILD_JITTER as i64) as i32;
    match queue.queue.pop_front() {
        Some(order) => {
            assert(queue.queue@ =~= old(queue)@.queue.drop_first());
            complete_build(world, order, jitter);
            assert(world@ == build_completed(old(world)@, order, jitter as int));
            Some(order)
        },
        None => None,
    }
}

} // verus!
