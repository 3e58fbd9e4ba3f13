//! Wave directors: a counter and a countdown. Each time the countdown
//! finishes the counter goes up by one and that many new entities enter from
//! one edge of the play area, laid out on a square grid that stands outside
//! it.

use crate::cooldown::Cooldown;
use crate::cooldown::CooldownView;
use crate::geometry::ceil_sqrt;
use crate::geometry::clamp_coord;
use crate::geometry::clamp_to_coord;
use crate::geometry::grid_columns;
use crate::geometry::grid_cell;
use crate::geometry::grid_position_toward;
use crate::geometry::grid_slot_toward;
use crate::geometry::GRID_SPACING;
use crate::geometry::lemma_ceil_sqrt_least;
use crate::geometry::point;
use crate::geometry::Position;
use crate::random::gen_range;
use crate::roster::asteroid;
use crate::roster::melee_enemy;
use crate::roster::ranged_enemy;
use crate::roster::spawn_asteroid;
use crate::roster::spawn_melee_enemy;
use crate::roster::spawn_ranged_enemy;
use crate::roster::ASTEROID_AMOUNT;
use crate::roster::ASTEROID_SPEED;
use crate::units::Entity;
use crate::units::EntityView;
use crate::world::MapBoundaries;
use crate::world::World;
use crate::world::WorldView;
use vstd::prelude::*;

verus! {

/// How far outside the play area a wave enters.
pub const SPAWN_MARGIN: i32 = 30_000;

/// The first members of a hostile wave fight at close range; from this one
/// on they fight from afar.
pub const MELEE_PER_WAVE: u32 = 7;

/// The inward part of the heading of a drifting deposit, and the bound of
/// its sideways part.
pub const HEADING_SCALE: i32 = 1_000;

/// The time between two hostile waves, in milliseconds.
pub const ENEMY_WAVE_MS: u64 = 20_000;

/// The time between two waves of deposits, in milliseconds.
pub const ASTEROID_WAVE_MS: u64 = 10_000;

/// What a wave is made of.
#[derive(Clone, Copy, Debug, PartialEq, Eq, Structural)]
pub enum WavePayload {
    Hostile,
    Resource,
}

/// The state of a director: the number of the last wave and the countdown to
/// the next.
pub struct WaveDirector {
    pub current_wave: u32,
    pub time_between_wave: Cooldown,
}

/// What contracts say of a director.
pub struct WaveDirectorView {
    pub current_wave: u32,
    pub time_between_wave: CooldownView,
}

impl View for WaveDirector {
    type V = WaveDirectorView;

    open spec fn view(&self) -> WaveDirectorView {
        WaveDirectorView {
            current_wave: self.current_wave,
            time_between_wave: self.time_between_wave@,
        }
    }
}

impl WaveDirectorView {
    /// A director that has sent no wave and sends one every `period_ms`
    /// milliseconds.
    pub open spec fn fresh(period_ms: u64) -> WaveDirectorView {
        WaveDirectorView {
            current_wave: 0,
            time_between_wave: CooldownView::fresh(period_ms as nat),
        }
    }

    /// Whether the director sends a wave when `dt_ms` more milliseconds
    /// have passed.
    pub open spec fn fires(self, dt_ms: u32) -> bool {
        self.time_between_wave.ticked(dt_ms as nat).finished
    }

    /// The number of the next wave. The counter stops at the largest number
    /// it can hold.
    pub open spec fn next_wave(self) -> u32 {
        if self.current_wave == u32::MAX {
            u32::MAX
        } else {
            (self.current_wave + 1) as u32
        }
    }

    /// The director after `dt_ms` more milliseconds: when it fires, the
    /// counter goes up and the countdown starts over.
    pub open spec fn ticked(self, dt_ms: u32) -> WaveDirectorView {
        if self.fires(dt_ms) {
            WaveDirectorView {
                current_wave: self.next_wave(),
                time_between_wave: self.time_between_wave.ticked(dt_ms as nat).restarted(),
            }
        } else {
            WaveDirectorView {
                current_wave: self.current_wave,
                time_between_wave: self.time_between_wave.ticked(dt_ms as nat),
            }
        }
    }
}

impl WaveDirector {
    /// A director that has sent no wave and sends one every `period_ms`
    /// milliseconds.
    pub fn new(period_ms: u64) -> (d: WaveDirector)
        ensures
            d@ == WaveDirectorView::fresh(period_ms),
    {
        WaveDirector { current_wave: 0, time_between_wave: Cooldown::from_millis(period_ms) }
    }

    /// Lets `dt_ms` milliseconds pass and says whether a wave is due.
    pub fn tick(&mut self, dt_ms: u32) -> (fired: bool)
        ensures
            fired == old(self)@.fires(dt_ms),
            final(self)@ == old(self)@.ticked(dt_ms),
    {
        self.time_between_wave.tick(dt_ms);
        if self.time_between_wave.finished() {
            self.time_between_wave.reset();
            self.current_wave = self.current_wave.saturating_add(1);
            true
        } else {
            false
        }
    }
}

/// The director of the hostile waves.
pub struct EnemyBrain {
    pub director: WaveDirector,
}

/// The director of the waves of deposits.
pub struct AsteroidBrain {
    pub director: WaveDirector,
}

impl View for EnemyBrain {
    type V = WaveDirectorView;

    open spec fn view(&self) -> WaveDirectorView {
        self.director@
    }
}

impl View for AsteroidBrain {
    type V = WaveDirectorView;

    open spec fn view(&self) -> WaveDirectorView {
        self.director@
    }
}

impl Default for EnemyBrain {
    fn default() -> (b: EnemyBrain)
        ensures
            b@ == WaveDirectorView::fresh(ENEMY_WAVE_MS),
    {
        EnemyBrain { director: WaveDirector::new(ENEMY_WAVE_MS) }
    }
}

impl Default for AsteroidBrain {
    fn default() -> (b: AsteroidBrain)
        ensures
            b@ == WaveDirectorView::fresh(ASTEROID_WAVE_MS),
    {
        AsteroidBrain { director: WaveDirector::new(ASTEROID_WAVE_MS) }
    }
}

/// Whether `along` is a coordinate on edge `side` of the play area. The
/// edges are numbered 0 (top), 1 (right), 2 (bottom) and 3 (left).
pub open spec fn on_edge(b: MapBoundaries, side: int, along: int) -> bool {
    &&& 0 <= side < 4
    &&& if side == 0 || side == 2 {
        b.x_min <= along < b.x_max
    } else {
        b.y_min <= along < b.y_max
    }
}

/// The point where a wave enters: at `along` on edge `side`, moved outward
/// by the spawn margin.
pub open spec fn edge_origin(b: MapBoundaries, side: int, along: int) -> Position {
    if side == 0 {
        Position { x: clamp_coord(along), y: clamp_coord(b.y_max + SPAWN_MARGIN) }
    } else if side == 1 {
        Position { x: clamp_coord(b.x_max + SPAWN_MARGIN), y: clamp_coord(along) }
    } else if side == 2 {
        Position { x: clamp_coord(along), y: clamp_coord(b.y_min - SPAWN_MARGIN) }
    } else {
        Position { x: clamp_coord(b.x_min - SPAWN_MARGIN), y: clamp_coord(along) }
    }
}

/// A heading that points from edge `side` into the play area, with the
/// sideways part `lateral`.
pub open spec fn inward_heading(side: int, lateral: int) -> Position {
    if side == 0 {
        point(lateral, -HEADING_SCALE)
    } else if side == 1 {
        point(-HEADING_SCALE, lateral)
    } else if side == 2 {
        point(lateral, HEADING_SCALE as int)
    } else {
        point(HEADING_SCALE as int, lateral)
    }
}

/// Member `i` of a wave, standing at `position`. A hostile wave begins with
/// units that fight at close range and goes on with units that fight from
/// afar; a wave of deposits is made of deposits that drift along `heading`.
pub open spec fn wave_member(
    payload: WavePayload,
    i: nat,
    position: Position,
    heading: Position,
) -> EntityView {
    match payload {
        WavePayload::Hostile => if i < MELEE_PER_WAVE {
            melee_enemy(position)
        } else {
            ranged_enemy(position)
        },
        WavePayload::Resource => asteroid(position, heading, ASTEROID_SPEED, ASTEROID_AMOUNT),
    }
}

/// The position of member `i` of a wave of `count` entities that enters at
/// `origin` on edge `side`: cell `i` of a grid whose number of columns is the
/// square root of `count`, rounded up, and which grows away from the play
/// area. At the top the rows run toward greater `y`, elsewhere toward
/// smaller `y`; at the left the columns run toward smaller `x`, elsewhere
/// toward greater `x`.
pub open spec fn wave_slot(origin: Position, side: int, count: nat, i: nat) -> Position {
    grid_slot_toward(origin, i, ceil_sqrt(count), side != 3, side == 0)
}

/// The world after the members `from..count` of a wave of `count` entities
/// were added, each at its place.
pub open spec fn wave_spawned(
    w: WorldView,
    payload: WavePayload,
    count: nat,
    side: int,
    origin: Position,
    heading: Position,
    from: nat,
) -> WorldView
    decreases count - from,
{
    if from >= count {
        w
    } else {
        wave_spawned(
            w.spawned(wave_member(payload, from, wave_slot(origin, side, count, from), heading)),
            payload,
            count,
            side,
            origin,
            heading,
            from + 1,
        )
    }
}

/// The world after a wave was added whose place and heading were drawn as
/// `side`, `along` and `lateral`.
pub open spec fn wave_drawn(
    w: WorldView,
    payload: WavePayload,
    count: nat,
    side: int,
    along: int,
    lateral: int,
) -> WorldView {
    wave_spawned(
        w,
        payload,
        count,
        side,
        edge_origin(w.boundaries, side, along),
        inward_heading(side, lateral),
        0,
    )
}

/// Whether `p` lies outside the play area, beyond edge `side`.
pub open spec fn beyond_edge(b: MapBoundaries, side: int, p: Position) -> bool {
    if side == 0 {
        p.y > b.y_max
    } else if side == 1 {
        p.x > b.x_max
    } else if side == 2 {
        p.y < b.y_min
    } else {
        p.x < b.x_min
    }
}

/// Whether the plane has room beyond every edge of the play area: no edge
/// lies at an end of the coordinate range.
pub open spec fn has_outside(b: MapBoundaries) -> bool {
    i32::MIN < b.x_min && b.x_max < i32::MAX && i32::MIN < b.y_min && b.y_max < i32::MAX
}

/// Whether every entity that the world `after` has more than the world
/// `before` stands outside the play area, beyond edge `side`.
pub open spec fn arrivals_beyond(before: WorldView, after: WorldView, side: int) -> bool {
    forall|j: int|
        before.entities.len() <= j < after.entities.len() ==> (#[trigger] after.entities[j]
            matches Some(e) && beyond_edge(before.boundaries, side, e.position))
}

/// The members of a wave are the entities that the world has more than
/// before, in their order, each at its place in the wave.
pub proof fn lemma_wave_places(
    w: WorldView,
    payload: WavePayload,
    count: nat,
    side: int,
    origin: Position,
    heading: Position,
    from: nat,
)
    requires
        from <= count,
    ensures
        wave_spawned(w, payload, count, side, origin, heading, from).entities.len()
            == w.entities.len() + count - from,
        wave_spawned(w, payload, count, side, origin, heading, from).boundaries == w.boundaries,
        forall|j: int|
            0 <= j < w.entities.len() ==> #[trigger] wave_spawned(
                w,
                payload,
                count,
                side,
                origin,
                heading,
                from,
            ).entities[j] == w.entities[j],
        forall|k: int|
            from <= k < count ==> #[trigger] wave_spawned(
                w,
                payload,
                count,
                side,
                origin,
                heading,
                from,
            ).entities[w.entities.len() + k - from] == Some(
                wave_member(payload, k as nat, wave_slot(origin, side, count, k as nat), heading),
            ),
    decreases count - from,
{
    if from < count {
        let s = w.spawned(
            wave_member(payload, from, wave_slot(origin, side, count, from), heading),
        );
        lemma_wave_places(s, payload, count, side, origin, heading, from + 1);
        let r = wave_spawned(w, payload, count, side, origin, heading, from);
        assert forall|j: int| 0 <= j < w.entities.len() implies #[trigger] r.entities[j]
            == w.entities[j] by {
            assert(r.entities[j] == s.entities[j]);
        }
        assert forall|k: int| from <= k < count implies #[trigger] r.entities[w.entities.len() + k
            - from] == Some(
            wave_member(payload, k as nat, wave_slot(origin, side, count, k as nat), heading),
        ) by {
            if k == from {
                assert(r.entities[w.entities.len() as int] == s.entities[w.entities.len() as int]);
            } else {
                assert(r.entities[s.entities.len() + k - (from + 1)] == Some(
                    wave_member(
                        payload,
                        k as nat,
                        wave_slot(origin, side, count, k as nat),
                        heading,
                    ),
                ));
            }
        }
    }
}

/// A member of a wave stands where it was put.
pub proof fn lemma_wave_member_position(
    payload: WavePayload,
    i: nat,
    position: Position,
    heading: Position,
)
    ensures
        wave_member(payload, i, position, heading).position == position,
{
}

/// Every place of a wave that enters on edge `side` lies outside the play
/// area, beyond that edge, wherever on the edge the wave was drawn.
pub proof fn lemma_wave_slot_beyond(b: MapBoundaries, side: int, along: int, count: nat, i: nat)
    requires
        b.wf(),
        has_outside(b),
        on_edge(b, side, along),
    ensures
        beyond_edge(b, side, wave_slot(edge_origin(b, side, along), side, count, i)),
{
    let (col, row) = grid_cell(i, ceil_sqrt(count));
    assert(GRID_SPACING * col >= 0 && GRID_SPACING * row >= 0) by (nonlinear_arith)
        requires
            GRID_SPACING == 80_000,
            col >= 0,
            row >= 0,
    ;
}

/// A wave that enters a play area with room beyond its edges stands wholly
/// outside it, beyond the edge on which it was drawn.
pub proof fn law_wave_stands_outside(
    w: WorldView,
    payload: WavePayload,
    count: nat,
    side: int,
    along: int,
    lateral: int,
)
    requires
        w.boundaries.wf(),
        has_outside(w.boundaries),
        can_draw(w.boundaries, side, along, lateral),
    ensures
        wave_drawn(w, payload, count, side, along, lateral).entities.len() == w.entities.len()
            + count,
        arrivals_beyond(w, wave_drawn(w, payload, count, side, along, lateral), side),
{
    let origin = edge_origin(w.boundaries, side, along);
    let heading = inward_heading(side, lateral);
    let r = wave_drawn(w, payload, count, side, along, lateral);
    lemma_wave_places(w, payload, count, side, origin, heading, 0);
    assert forall|j: int| w.entities.len() <= j < r.entities.len() implies (
    #[trigger] r.entities[j] matches Some(e) && beyond_edge(w.boundaries, side, e.position)) by {
        let k = j - w.entities.len();
        assert(r.entities[w.entities.len() + k - 0] == Some(
            wave_member(payload, k as nat, wave_slot(origin, side, count, k as nat), heading),
        ));
        lemma_wave_member_position(
            payload,
            k as nat,
            wave_slot(origin, side, count, k as nat),
            heading,
        );
        lemma_wave_slot_beyond(w.boundaries, side, along, count, k as nat);
    }
}

/// Whether `side`, `along` and `lateral` can be drawn for a wave.
pub open spec fn can_draw(b: MapBoundaries, side: int, along: int, lateral: int) -> bool {
    on_edge(b, side, along) && -HEADING_SCALE <= lateral < HEADING_SCALE
}

/// The point where a wave enters.
pub fn spawn_origin(b: &MapBoundaries, side: u8, along: i32) -> (p: Position)
    ensures
        p == edge_origin(*b, side as int, along as int),
{
    if side == 0 {
        Position { x: along, y: clamp_to_coord(b.y_max as i128 + SPAWN_MARGIN as i128) }
    } else if side == 1 {
        Position { x: clamp_to_coord(b.x_max as i128 + SPAWN_MARGIN as i128), y: along }
    } else if side == 2 {
        Position { x: along, y: clamp_to_coord(b.y_min as i128 - SPAWN_MARGIN as i128) }
    } else {
        Position { x: clamp_to_coord(b.x_min as i128 - SPAWN_MARGIN as i128), y: along }
    }
}

/// A heading that points from edge `side` into the play area.
pub fn spawn_heading(side: u8, lateral: i32) -> (h: Position)
    ensures
        h == inward_heading(side as int, lateral as int),
{
    if side == 0 {
        Position { x: lateral, y: -HEADING_SCALE }
    } else if side == 1 {
        Position { x: -HEADING_SCALE, y: lateral }
    } else if side == 2 {
        Position { x: lateral, y: HEADING_SCALE }
    } else {
        Position { x: HEADING_SCALE, y: lateral }
    }
}

/// Builds member `i` of a wave.
pub fn spawn_wave_member(payload: WavePayload, i: u32, position: Position, heading: Position) -> (e:
    Entity)
    ensures
        e@ == wave_member(payload, i as nat, position, heading),
{
    match payload {
        WavePayload::Hostile => {
            if i < MELEE_PER_WAVE {
                spawn_melee_enemy(position)
            } else {
                spawn_ranged_enemy(position)
            }
        },
        WavePayload::Resource => spawn_asteroid(position, heading, ASTEROID_SPEED, ASTEROID_AMOUNT),
    }
}

/// Adds a wave of `count` entities that enters at `origin` on edge `side`.
pub fn spawn_wave(
    world: &mut World,
    payload: WavePayload,
    count: u32,
    side: u8,
    origin: Position,
    heading: Position,
)
    ensures
        final(world)@ == wave_spawned(
            old(world)@,
            payload,
            count as nat,
            side as int,
            origin,
            heading,
            0,
        ),
{
    let columns = grid_columns(count as usize);
    let mut i: u32 = 0;
    while i < count
        invariant
            i <= count,
            columns == ceil_sqrt(count as nat),
            wave_spawned(
                world@,
                payload,
                count as nat,
                side as int,
                origin,
                heading,
                i as nat,
            ) == wave_spawned(old(world)@, payload, count as nat, side as int, origin, heading, 0),
        decreases count - i,
    {
        proof {
            lemma_ceil_sqrt_least(count as nat, 0);
        }
        let position = grid_position_toward(origin, i as usize, columns, side != 3, side == 0);
        world.spawn(spawn_wave_member(payload, i, position, heading));
        i += 1;
    }
}

/// One tick of a director. When its countdown finishes, the counter goes up
/// by one, the countdown starts over, an edge of the play area, a point on
/// it and a heading are drawn at random, and as many entities as the counter
/// says enter there.
pub fn run_director(
    world: &mut World,
    director: &mut WaveDirector,
    payload: WavePayload,
    dt_ms: u32,
)
    requires
        old(world)@.boundaries.wf(),
    ensures
        final(director)@ == old(director)@.ticked(dt_ms),
        !old(director)@.fires(dt_ms) ==> final(world)@ == old(world)@,
        old(director)@.fires(dt_ms) ==> exists|side: int, along: int, lateral: int|
            can_draw(old(world)@.boundaries, side, along, lateral) && final(world)@
                == #[trigger] wave_drawn(
                old(world)@,
                payload,
                old(director)@.next_wave() as nat,
                side,
                along,
                lateral,
            ) && (has_outside(old(world)@.boundaries) ==> arrivals_beyond(
                old(world)@,
                final(world)@,
                side,
            )),
{
    if director.tick(dt_ms) {
        let side = gen_range(0, 4) as u8;
        let along = if side == 0 || side == 2 {
            gen_range(world.boundaries.x_min as i64, world.boundaries.x_max as i64) as i32
        } else {
            gen_range(world.boundaries.y_min as i64, world.boundaries.y_max as i64) as i32
        };
        let lateral = gen_range(-(HEADING_SCALE as i64), HEADING_SCALE as i64) as i32;
        let origin = spawn_origin(&world.boundaries, side, along);
        let heading = spawn_heading(side, lateral);
        spawn_wave(world, payload, director.current_wave, side, origin, heading);
        assert(can_draw(old(world)@.boundaries, side as int, along as int, lateral as int));
        proof {
            if has_outside(old(world)@.boundaries) {
                law_wave_stands_outside(
                    old(world)@,
                    payload,
                    old(director)@.next_wave() as nat,
                    side as int,
                    along as int,
                    lateral as int,
                );
            }
        }
        assert(world@ == wave_drawn(
            old(world)@,
            payload,
            old(director)@.next_wave() as nat,
            side as int,
            along as int,
            lateral as int,
        ));
    }
}

/// One tick of the director of the hostile waves.
pub fn enemy_mastermind(world: &mut World, brain: &mut EnemyBrain, dt_ms: u32)
    requires
        old(world)@.boundaries.wf(),
    ensures
        final(brain)@ == old(brain)@.ticked(dt_ms),
        !old(brain)@.fires(dt_ms) ==> final(world)@ == old(world)@,
        old(brain)@.fires(dt_ms) ==> exists|side: int, along: int, lateral: int|
            can_draw(old(world)@.boundaries, side, along, lateral) && final(world)@
                == #[trigger] wave_drawn(
                old(world)@,
                WavePayload::Hostile,
                old(brain)@.next_wave() as nat,
                side,
                along,
                lateral,
            ) && (has_outside(old(world)@.boundaries) ==> arrivals_beyond(
                old(world)@,
                final(world)@,
                side,
            )),
{
    run_director(world, &mut brain.director, WavePayload::Hostile, dt_ms);
}

/// One tick of the director of the waves of deposits.
pub fn asteroid_mastermind(world: &mut World, brain: &mut AsteroidBrain, dt_ms: u32)
    requires
        old(world)@.boundaries.wf(),
    ensures
        final(brain)@ == old(brain)@.ticked(dt_ms),
        !old(brain)@.fires(dt_ms) ==> final(world)@ == old(world)@,
        old(brain)@.fires(dt_ms) ==> exists|side: int, along: int, lateral: int|
            can_draw(old(world)@.boundaries, side, along, lateral) && final(world)@
                == #[trigger] wave_drawn(
                old(world)@,
                WavePayload::Resource,
                old(brain)@.next_wave() as nat,
                side,
                along,
                lateral,
            ) && (has_outside(old(world)@.boundaries) ==> arrivals_beyond(
                old(world)@,
                final(world)@,
                side,
            )),
{
    run_director(world, &mut brain.director, WavePayload::Resource, dt_ms);
}

} // verus!
