//! The session: its start, the phases of a tick in their order, and what the
//! world shows of itself to the screens around it.

use crate::brain::AsteroidBrain;
use crate::brain::EnemyBrain;
use crate::brain::WaveDirectorView;
use crate::brain::ASTEROID_WAVE_MS;
use crate::brain::ENEMY_WAVE_MS;
use crate::combat::attack_timers_ticked;
use crate::combat::bullet_behaviour;
use crate::combat::bullets_flown;
use crate::combat::check_dead_units;
use crate::combat::damage_resolved;
use crate::combat::dead_removed;
use crate::combat::handle_aggressive_pigs;
use crate::combat::handle_mildly_aggressive_pigs;
use crate::combat::pigs_roused;
use crate::combat::process_damage_events;
use crate::combat::tick_attack_timers;
use crate::cooldown::Cooldown;
use crate::cooldown::CooldownView;
use crate::geometry::dist_sq;
use crate::geometry::nearer_than;
use crate::geometry::Position;
use crate::materials::asteroids_deleted;
use crate::materials::delete_asteroids;
use crate::movement::mining_timers_ticked;
use crate::movement::move_units;
use crate::movement::step_units;
use crate::movement::tick_mining_timers;
use crate::random::gen_range;
use crate::production::BuildQueue;
use crate::production::BUILD_MS;
use crate::production::MAX_REQUESTS;
use crate::steering::all_drifted;
use crate::steering::move_forward;
use crate::units::EntityView;
use crate::units::Team;
use crate::world::MapBoundaries;
use crate::world::MineralResources;
use crate::world::World;
use crate::world::WorldView;
use crate::world::STARTING_MINERAL;
use vstd::prelude::*;

verus! {

/// The depot wins the session when it comes closer than this to the
/// extraction point.
pub const EXTRACTION_RANGE: u32 = 50_000;

/// Puts the stockpile, both directors and the build queue back to what a
/// session starts with.
pub fn reset_mastermind(
    minerals: &mut MineralResources,
    enemy_brain: &mut EnemyBrain,
    asteroid_brain: &mut AsteroidBrain,
    build_queue: &mut BuildQueue,
)
    ensures
        final(minerals).mineral == STARTING_MINERAL,
        final(enemy_brain)@ == WaveDirectorView::fresh(ENEMY_WAVE_MS),
        final(asteroid_brain)@ == WaveDirectorView::fresh(ASTEROID_WAVE_MS),
        final(build_queue)@.queue.len() == 0,
        final(build_queue)@.build_time == CooldownView::fresh(BUILD_MS as nat),
        final(build_queue)@.max_request == MAX_REQUESTS,
{
    *minerals = MineralResources::default();
    *enemy_brain = EnemyBrain::default();
    *asteroid_brain = AsteroidBrain::default();
    *build_queue = BuildQueue::default();
}

/// The first phase of a tick: the mining countdowns, the projectiles in
/// flight, then the command engine, the attack countdowns, the units that
/// pick their own targets, and drift. A projectile fired in this tick first
/// flies in the next.
pub open spec fn updated(w: WorldView, dt_ms: u32) -> WorldView {
    let m = mining_timers_ticked(w, dt_ms);
    let a = bullets_flown(m, 0, m.entities.len() as int, dt_ms);
    let b = step_units(a, 0, a.entities.len() as int, dt_ms);
    let c = attack_timers_ticked(b, dt_ms);
    let d = pigs_roused(c, 0, c.entities.len() as int, false);
    let e = pigs_roused(d, 0, d.entities.len() as int, true);
    all_drifted(e, dt_ms)
}

/// The last phase of a tick: the waiting hits are resolved, then the dead
/// and the spent deposits leave the world.
pub open spec fn post_updated(w: WorldView) -> WorldView {
    asteroids_deleted(dead_removed(damage_resolved(w)))
}

/// Runs the first phase of a tick.
pub fn update(world: &mut World, dt_ms: u32)
    ensures
        final(world)@ == updated(old(world)@, dt_ms),
{
    tick_mining_timers(world, dt_ms);
    bullet_behaviour(world, dt_ms);
    move_units(world, dt_ms);
    tick_attack_timers(world, dt_ms);
    handle_aggressive_pigs(world);
    handle_mildly_aggressive_pigs(world);
    move_forward(world, dt_ms);
}

/// Runs the last phase of a tick.
pub fn post_update(world: &mut World)
    ensures
        final(world)@ == post_updated(old(world)@),
{
    process_damage_events(world);
    check_dead_units(world);
    delete_asteroids(world);
}

/// Whether the slot holds a unit of `team`.
pub open spec fn of_team(slot: Option<EntityView>, team: i32) -> bool {
    slot matches Some(e) && e.team matches Some(t) && t.0 == team
}

/// The number of units of `team` behind the handles below `upto`.
pub open spec fn team_count(w: WorldView, team: i32, upto: int) -> nat
    decreases upto,
{
    if upto <= 0 || upto > w.entities.len() {
        0
    } else {
        team_count(w, team, upto - 1) + if of_team(w.entities[upto - 1], team) {
            1nat
        } else {
            0nat
        }
    }
}

/// The number of units of `team` behind the handles below `upto` is at most
/// `upto`.
proof fn lemma_team_count_bounded(w: WorldView, team: i32, upto: int)
    requires
        0 <= upto,
    ensures
        team_count(w, team, upto) <= upto,
    decreases upto,
{
    if upto > 0 {
        lemma_team_count_bounded(w, team, upto - 1);
    }
}

/// Counts the living units of `team`.
pub fn count_team(world: &World, team: i32) -> (n: usize)
    ensures
        n == team_count(world@, team, world@.entities.len() as int),
{
    let mut n: usize = 0;
    let mut i: usize = 0;
    while i < world.entities.len()
        invariant
            i <= world.entities.len(),
            n <= i,
            n == team_count(world@, team, i as int),
        decreases world.entities.len() - i,
    {
        proof {
            lemma_team_count_bounded(world@, team, i as int);
        }
        match &world.entities[i] {
            Some(e) => {
                match e.team {
                    Some(t) => {
                        if t.0 == team {
                            n += 1;
                        }
                    },
                    None => {},
                }
            },
            None => {},
        }
        i += 1;
    }
    n
}

/// Whether the slot holds a depot of the player's.
pub open spec fn players_depot(slot: Option<EntityView>) -> bool {
    slot matches Some(e) && e.mother_unit is Some && e.team == Some(Team(0))
}

/// Whether the slot holds a depot closer than the extraction range to
/// `end_point`.
pub open spec fn extracted(slot: Option<EntityView>, end_point: Position) -> bool {
    slot matches Some(e) && e.mother_unit is Some && dist_sq(e.position, end_point)
        < EXTRACTION_RANGE * EXTRACTION_RANGE
}

/// Whether the session is lost: the player has no depot left.
pub fn detect_lose(world: &World) -> (lost: bool)
    ensures
        lost == !exists|i: int|
            0 <= i < world@.entities.len() && players_depot(#[trigger] world@.entities[i]),
{
    let mut i: usize = 0;
    while i < world.entities.len()
        invariant
            i <= world.entities.len(),
            forall|j: int| 0 <= j < i ==> !players_depot(#[trigger] world@.entities[j]),
        decreases world.entities.len() - i,
    {
        match &world.entities[i] {
            Some(e) => {
                let players = match e.team {
                    Some(t) => t.0 == 0,
                    None => false,
                };
                if e.mother_unit.is_some() && players {
                    assert(players_depot(world@.entities[i as int]));
                    return false;
                }
            },
            None => {},
        }
        i += 1;
    }
    true
}

/// Whether the session is won: a depot has reached the extraction point.
pub fn check_if_won(world: &World, end_point: Position) -> (won: bool)
    ensures
        won == exists|i: int|
            0 <= i < world@.entities.len() && extracted(#[trigger] world@.entities[i], end_point),
{
    let mut i: usize = 0;
    while i < world.entities.len()
        invariant
            i <= world.entities.len(),
            forall|j: int| 0 <= j < i ==> !extracted(#[trigger] world@.entities[j], end_point),
        decreases world.entities.len() - i,
    {
        match &world.entities[i] {
            Some(e) => {
                if e.mother_unit.is_some() && nearer_than(e.position, end_point, EXTRACTION_RANGE) {
                    assert(extracted(world@.entities[i as int], end_point));
                    return true;
                }
            },
            None => {},
        }
        i += 1;
    }
    false
}

/// How long a session runs before the extraction point appears, in
/// milliseconds.
pub const END_GAME_MS: u64 = 300_000;

/// How far inside the play area the extraction point is drawn.
pub const EXTRACTION_MARGIN: i32 = 100_000;

/// The extraction point is drawn again while it is closer than this to the
/// depot.
pub const EXTRACTION_DISTANCE: u32 = 200_000;

/// How often the extraction point is drawn at most.
pub const EXTRACTION_DRAWS: u32 = 21;

/// The countdown to the appearance of the extraction point.
pub struct EndGameTimer(pub Cooldown);

impl View for EndGameTimer {
    type V = CooldownView;

    open spec fn view(&self) -> CooldownView {
        self.0@
    }
}

impl Default for EndGameTimer {
    fn default() -> (t: EndGameTimer)
        ensures
            t@ == CooldownView::fresh(END_GAME_MS as nat),
    {
        EndGameTimer(Cooldown::from_millis(END_GAME_MS))
    }
}

/// Whether the play area is wide and high enough for an extraction point to
/// be drawn inside its margin.
pub open spec fn has_room(b: MapBoundaries) -> bool {
    b.x_min + EXTRACTION_MARGIN < b.x_max - EXTRACTION_MARGIN && b.y_min + EXTRACTION_MARGIN
        < b.y_max - EXTRACTION_MARGIN
}

/// Whether `p` lies in the play area, inside its margin.
pub open spec fn well_inside(b: MapBoundaries, p: Position) -> bool {
    b.x_min + EXTRACTION_MARGIN <= p.x < b.x_max - EXTRACTION_MARGIN && b.y_min
        + EXTRACTION_MARGIN <= p.y < b.y_max - EXTRACTION_MARGIN
}

/// Whether an extraction point is placed when `dt_ms` more milliseconds have
/// passed: none is placed yet, the countdown has finished, and the world has
/// a depot.
pub open spec fn end_point_due(
    w: WorldView,
    timer: CooldownView,
    end_point: Option<Position>,
    dt_ms: u32,
) -> bool {
    end_point is None && timer.ticked(dt_ms as nat).finished && w.depot() is Some && w.get(
        w.depot()->0,
    ) is Some
}

/// Whether the play area has room for an extraction point.
pub fn room_for_end_point(b: &MapBoundaries) -> (r: bool)
    ensures
        r == has_room(*b),
{
    let margin = EXTRACTION_MARGIN as i64;
    b.x_min as i64 + margin < b.x_max as i64 - margin && b.y_min as i64 + margin < b.y_max as i64
        - margin
}

/// One tick of the countdown to extraction. Once it has finished, and while
/// no extraction point is placed and the world has a depot, a point is drawn
/// at random inside the margin of the play area, and drawn again, a limited
/// number of times, while it is too close to the depot.
pub fn spawn_end_point(
    world: &World,
    timer: &mut EndGameTimer,
    end_point: &mut Option<Position>,
    dt_ms: u32,
)
    requires
        has_room(world@.boundaries),
    ensures
        final(timer)@ == old(timer)@.ticked(dt_ms as nat),
        !end_point_due(world@, old(timer)@, *old(end_point), dt_ms) ==> *final(end_point)
            == *old(end_point),
        end_point_due(world@, old(timer)@, *old(end_point), dt_ms) ==> (*final(end_point)
            matches Some(p) && well_inside(world@.boundaries, p)),
{
    timer.0.tick(dt_ms);
    if !timer.0.finished() || end_point.is_some() {
        return ;
    }
    let home = match world.depot() {
        Some(d) => world.position_of(d),
        None => None,
    };
    match home {
        None => {},
        Some(depot) => {
            let b = world.boundaries;
            let mut p = draw_inside(&b);
            let mut draws: u32 = 1;
            while draws < EXTRACTION_DRAWS && nearer_than(depot, p, EXTRACTION_DISTANCE)
                invariant
                    has_room(b),
                    well_inside(b, p),
                    draws <= EXTRACTION_DRAWS,
                decreases EXTRACTION_DRAWS - draws,
            {
                p = draw_inside(&b);
                draws += 1;
            }
            *end_point = Some(p);
        },
    }
}

/// Draws a point inside the margin of the play area.
fn draw_inside(b: &MapBoundaries) -> (p: Position)
    requires
        has_room(*b),
    ensures
        well_inside(*b, p),
{
    let margin = EXTRACTION_MARGIN as i64;
    Position {
        x: gen_range(b.x_min as i64 + margin, b.x_max as i64 - margin) as i32,
        y: gen_range(b.y_min as i64 + margin, b.y_max as i64 - margin) as i32,
    }
}

} // verus!
