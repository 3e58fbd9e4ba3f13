//! Fixed-point plane geometry: positions, squared distances, integer square
//! roots, straight-line steps and square grid layouts.

use vstd::prelude::*;

verus! {

/// A point of the plane, or a displacement, in thousandths of a world unit.
#[derive(Clone, Copy, Debug, PartialEq, Eq, Structural)]
pub struct Position {
    pub x: i32,
    pub y: i32,
}

/// The position with the coordinates `x` and `y`.
pub open spec fn point(x: int, y: int) -> Position {
    Position { x: x as i32, y: y as i32 }
}

/// The squared length of the displacement `(dx, dy)`.
pub open spec fn length_squared(dx: int, dy: int) -> nat {
    (dx * dx + dy * dy) as nat
}

/// The squared distance between two positions.
pub open spec fn dist_sq(a: Position, b: Position) -> nat {
    length_squared(b.x - a.x, b.y - a.y)
}

/// The integer square root: the largest `r` with `r * r <= n`.
pub open spec fn isqrt(n: nat) -> nat
    decreases n,
{
    if n == 0 {
        0
    } else {
        let r = isqrt((n - 1) as nat);
        if (r + 1) * (r + 1) <= n {
            r + 1
        } else {
            r
        }
    }
}

/// `isqrt(n)` brackets `n` between two consecutive squares.
pub proof fn lemma_isqrt_bracket(n: nat)
    ensures
        isqrt(n) * isqrt(n) <= n,
        n < (isqrt(n) + 1) * (isqrt(n) + 1),
    decreases n,
{
    let s = isqrt(n);
    if n == 0 {
        assert(s == 0);
        assert(s * s == 0 && (s + 1) * (s + 1) == 1) by (nonlinear_arith)
            requires
                s == 0,
        ;
    } else {
        lemma_isqrt_bracket((n - 1) as nat);
        let r = isqrt((n - 1) as nat);
        if (r + 1) * (r + 1) <= n {
            assert(s == r + 1);
            assert((s + 1) * (s + 1) > s * s) by (nonlinear_arith);
        } else {
            assert(s == r);
        }
    }
}

/// Only one number brackets `n` between its square and the next square.
pub proof fn lemma_isqrt_unique(n: nat, r: nat)
    requires
        r * r <= n,
        n < (r + 1) * (r + 1),
    ensures
        r == isqrt(n),
{
    lemma_isqrt_bracket(n);
    let s = isqrt(n);
    assert(r <= s) by (nonlinear_arith)
        requires
            r * r <= n,
            n < (s + 1) * (s + 1),
    ;
    assert(s <= r) by (nonlinear_arith)
        requires
            s * s <= n,
            n < (r + 1) * (r + 1),
    ;
}

/// Computes the integer square root by bisection.
pub fn integer_sqrt(n: u128) -> (r: u64)
    ensures
        r == isqrt(n as nat),
        r * r <= n,
        n < (r + 1) * (r + 1),
{
    let mut lo: u128 = 0;
    let mut hi: u128 = 0x1_0000_0000_0000_0000;
    assert(hi * hi > n) by (nonlinear_arith)
        requires
            hi == 0x1_0000_0000_0000_0000u128,
            n <= u128::MAX,
    ;
    while hi - lo > 1
        invariant
            lo < hi <= 0x1_0000_0000_0000_0000,
            lo * lo <= n,
            n < hi * hi,
        decreases hi - lo,
    {
        let mid: u128 = lo + (hi - lo) / 2;
        assert(mid * mid < 0x1_0000_0000_0000_0000 * 0x1_0000_0000_0000_0000) by (nonlinear_arith)
            requires
                mid < 0x1_0000_0000_0000_0000,
        ;
        if mid * mid <= n {
            lo = mid;
        } else {
            hi = mid;
        }
    }
    proof {
        lemma_isqrt_unique(n as nat, lo as nat);
    }
    lo as u64
}

/// The smallest `c` with `c * c >= n`: the side of the smallest square grid
/// that holds `n` cells.
pub open spec fn ceil_sqrt(n: nat) -> nat {
    let r = isqrt(n);
    if r * r == n {
        r
    } else {
        r + 1
    }
}

/// The square of `ceil_sqrt(n)` reaches `n`, and no smaller number's does.
pub proof fn lemma_ceil_sqrt_least(n: nat, c: nat)
    ensures
        ceil_sqrt(n) * ceil_sqrt(n) >= n,
        c * c >= n ==> c >= ceil_sqrt(n),
{
    lemma_isqrt_bracket(n);
    let r = isqrt(n);
    if c < ceil_sqrt(n) {
        if r * r == n {
            assert(c * c < r * r) by (nonlinear_arith)
                requires
                    c < r,
            ;
        } else {
            assert(c * c <= r * r) by (nonlinear_arith)
                requires
                    c <= r,
            ;
        }
    }
}

/// The number of columns of the square grid on which `n` entities are laid
/// out.
pub fn grid_columns(n: usize) -> (c: u64)
    ensures
        c == ceil_sqrt(n as nat),
        c <= 0x1_0000_0000,
{
    let r = integer_sqrt(n as u128);
    assert(r <= 0xFFFF_FFFF) by (nonlinear_arith)
        requires
            r * r <= n,
            n <= usize::MAX,
            usize::MAX <= 0xFFFF_FFFF_FFFF_FFFF,
    ;
    if (r as u128) * (r as u128) == n as u128 {
        r
    } else {
        r + 1
    }
}

/// The distance between neighbouring cells of a formation grid.
pub const GRID_SPACING: i32 = 80_000;

/// The largest component of a displacement that `advance` accepts.
pub const DISPLACEMENT_LIMIT: i64 = 0x100_0000_0000_0000;

/// `v` brought into the range of a coordinate: coordinates saturate at the
/// ends of `i32`.
pub open spec fn clamp_coord(v: int) -> i32 {
    if v < i32::MIN {
        i32::MIN
    } else if v > i32::MAX {
        i32::MAX
    } else {
        v as i32
    }
}

/// `v` brought into the range of a displacement component: a sum of
/// displacements that grows past the limit stops there.
pub open spec fn clamp_displacement(v: int) -> int {
    if v < -DISPLACEMENT_LIMIT {
        -DISPLACEMENT_LIMIT
    } else if v > DISPLACEMENT_LIMIT {
        DISPLACEMENT_LIMIT as int
    } else {
        v
    }
}

/// The component `d` of a displacement of length `len`, rescaled to the
/// length `step` and rounded to the nearest whole number, halves away from
/// zero.
pub open spec fn scaled(d: int, step: nat, len: nat) -> int {
    if d >= 0 {
        (2 * d * step + len) / ((2 * len) as int)
    } else {
        -((2 * (-d) * step + len) / ((2 * len) as int))
    }
}

/// The position reached from `p` by a move of length `step` in the direction
/// `(dx, dy)`. A zero direction moves nowhere.
pub open spec fn advanced(p: Position, dx: int, dy: int, step: nat) -> Position {
    let len = isqrt(length_squared(dx, dy));
    if len == 0 {
        p
    } else {
        Position {
            x: clamp_coord(p.x + scaled(dx, step, len)),
            y: clamp_coord(p.y + scaled(dy, step, len)),
        }
    }
}

/// The position reached from `from` by a move of length `step` straight
/// toward `to`. A step that reaches `to` ends there: the move never passes
/// its goal.
pub open spec fn stepped_toward(from: Position, to: Position, step: nat) -> Position {
    if step >= isqrt(dist_sq(from, to)) {
        to
    } else {
        advanced(from, to.x - from.x, to.y - from.y, step)
    }
}

/// The length covered in `dt_ms` milliseconds at `speed` world units per
/// second, in thousandths of a world unit.
pub open spec fn step_length(speed: u32, dt_ms: u32) -> nat {
    (speed as nat) * (dt_ms as nat)
}

/// The column and the row of cell `i` in a grid of `columns` columns that is
/// filled row by row.
pub open spec fn grid_cell(i: nat, columns: nat) -> (nat, nat) {
    (i % columns, i / columns)
}

/// The position of cell `i` of a grid whose first cell is at `origin`.
/// Columns run toward greater `x` if `right`, else toward smaller `x`; rows
/// run toward greater `y` if `up`, else toward smaller `y`.
pub open spec fn grid_slot_toward(
    origin: Position,
    i: nat,
    columns: nat,
    right: bool,
    up: bool,
) -> Position {
    let (col, row) = grid_cell(i, columns);
    Position {
        x: clamp_coord(
            if right {
                origin.x + GRID_SPACING * col
            } else {
                origin.x - GRID_SPACING * col
            },
        ),
        y: clamp_coord(
            if up {
                origin.y + GRID_SPACING * row
            } else {
                origin.y - GRID_SPACING * row
            },
        ),
    }
}

/// The position of cell `i` of a formation grid whose first cell is at
/// `origin`: columns run toward greater `x`, rows toward smaller `y`.
pub open spec fn grid_slot(origin: Position, i: nat, columns: nat) -> Position {
    grid_slot_toward(origin, i, columns, true, false)
}

/// Brings a wide integer into the range of a coordinate.
pub fn clamp_to_coord(v: i128) -> (r: i32)
    ensures
        r == clamp_coord(v as int),
{
    if v < i32::MIN as i128 {
        i32::MIN
    } else if v > i32::MAX as i128 {
        i32::MAX
    } else {
        v as i32
    }
}

/// Brings a wide integer into the range of a displacement component.
pub fn clamp_to_displacement(v: i128) -> (r: i64)
    ensures
        r == clamp_displacement(v as int),
        -DISPLACEMENT_LIMIT <= r <= DISPLACEMENT_LIMIT,
{
    if v < -(DISPLACEMENT_LIMIT as i128) {
        -DISPLACEMENT_LIMIT
    } else if v > DISPLACEMENT_LIMIT as i128 {
        DISPLACEMENT_LIMIT
    } else {
        v as i64
    }
}

/// Computes the squared distance between two positions.
pub fn distance_squared(a: Position, b: Position) -> (r: u128)
    ensures
        r == dist_sq(a, b),
{
    let dx: i64 = b.x as i64 - a.x as i64;
    let dy: i64 = b.y as i64 - a.y as i64;
    squared_length(dx, dy)
}

/// Computes the squared length of a displacement.
pub fn squared_length(dx: i64, dy: i64) -> (r: u128)
    requires
        -DISPLACEMENT_LIMIT <= dx <= DISPLACEMENT_LIMIT,
        -DISPLACEMENT_LIMIT <= dy <= DISPLACEMENT_LIMIT,
    ensures
        r == length_squared(dx as int, dy as int),
        r <= 2 * (DISPLACEMENT_LIMIT * DISPLACEMENT_LIMIT),
{
    let ax: u128 = magnitude(dx);
    let ay: u128 = magnitude(dy);
    assert(ax * ax == dx * dx && ax * ax <= DISPLACEMENT_LIMIT * DISPLACEMENT_LIMIT) by (nonlinear_arith)
        requires
            ax == dx || ax == -dx,
            ax <= DISPLACEMENT_LIMIT,
    ;
    assert(ay * ay == dy * dy && ay * ay <= DISPLACEMENT_LIMIT * DISPLACEMENT_LIMIT) by (nonlinear_arith)
        requires
            ay == dy || ay == -dy,
            ay <= DISPLACEMENT_LIMIT,
    ;
    ax * ax + ay * ay
}

/// The absolute value of a displacement component.
fn magnitude(d: i64) -> (m: u128)
    ensures
        d >= 0 ==> m == d,
        d < 0 ==> m == -d,
{
    if d >= 0 {
        d as u128
    } else {
        (-(d as i128)) as u128
    }
}

/// Whether `a` and `b` are more than `radius` apart.
pub fn farther_than(a: Position, b: Position, radius: u32) -> (r: bool)
    ensures
        r == (dist_sq(a, b) > radius * radius),
{
    let d = distance_squared(a, b);
    assert(radius * radius <= 0xFFFF_FFFF * 0xFFFF_FFFF) by (nonlinear_arith)
        requires
            radius <= 0xFFFF_FFFF,
    ;
    d > (radius as u128) * (radius as u128)
}

/// Whether `a` and `b` are less than `radius` apart.
pub fn nearer_than(a: Position, b: Position, radius: u32) -> (r: bool)
    ensures
        r == (dist_sq(a, b) < radius * radius),
{
    let d = distance_squared(a, b);
    assert(radius * radius <= 0xFFFF_FFFF * 0xFFFF_FFFF) by (nonlinear_arith)
        requires
            radius <= 0xFFFF_FFFF,
    ;
    d < (radius as u128) * (radius as u128)
}

/// Rescales one component of a displacement of length `len` to the length
/// `step`, rounding to the nearest whole number.
fn scale_component(d: i64, step: u64, len: u64) -> (r: i128)
    requires
        len > 0,
        -DISPLACEMENT_LIMIT <= d <= DISPLACEMENT_LIMIT,
    ensures
        r == scaled(d as int, step as nat, len as nat),
        -0x400_0000_0000_0000 * 0x1_0000_0000_0000_0000 <= r <= 0x400_0000_0000_0000
            * 0x1_0000_0000_0000_0000,
{
    let mag: u128 = magnitude(d);
    assert(2 * mag * step + len <= 0x400_0000_0000_0000 * 0x1_0000_0000_0000_0000) by (nonlinear_arith)
        requires
            mag <= 0x100_0000_0000_0000,
            step <= 0xFFFF_FFFF_FFFF_FFFF,
            len <= 0xFFFF_FFFF_FFFF_FFFF,
    ;
    assert(2 * mag * step == (2 * mag) * step) by (nonlinear_arith);
    let q: u128 = ((2 * mag) * (step as u128) + len as u128) / (2 * (len as u128));
    if d >= 0 {
        q as i128
    } else {
        -(q as i128)
    }
}

/// Moves `p` by the length `step` in the direction `(dx, dy)`.
pub fn advance(p: Position, dx: i64, dy: i64, step: u64) -> (r: Position)
    requires
        -DISPLACEMENT_LIMIT <= dx <= DISPLACEMENT_LIMIT,
        -DISPLACEMENT_LIMIT <= dy <= DISPLACEMENT_LIMIT,
    ensures
        r == advanced(p, dx as int, dy as int, step as nat),
{
    let len = integer_sqrt(squared_length(dx, dy));
    if len == 0 {
        p
    } else {
        let mx = scale_component(dx, step, len);
        let my = scale_component(dy, step, len);
        Position { x: clamp_to_coord(p.x as i128 + mx), y: clamp_to_coord(p.y as i128 + my) }
    }
}

/// Moves `from` by the length `step` straight toward `to`, and no farther
/// than `to`.
pub fn step_toward(from: Position, to: Position, step: u64) -> (r: Position)
    ensures
        r == stepped_toward(from, to, step as nat),
{
    let len = integer_sqrt(distance_squared(from, to));
    if step >= len {
        to
    } else {
        advance(from, to.x as i64 - from.x as i64, to.y as i64 - from.y as i64, step)
    }
}

/// The length covered in `dt_ms` milliseconds at `speed` world units per
/// second.
pub fn step_len(speed: u32, dt_ms: u32) -> (r: u64)
    ensures
        r == step_length(speed, dt_ms),
{
    assert(speed * dt_ms <= 0xFFFF_FFFF * 0xFFFF_FFFF) by (nonlinear_arith)
        requires
            speed <= 0xFFFF_FFFF,
            dt_ms <= 0xFFFF_FFFF,
    ;
    (speed as u64) * (dt_ms as u64)
}

/// The position of cell `i` of a grid of `columns` columns whose first cell
/// is at `origin`, with columns and rows running as told.
pub fn grid_position_toward(origin: Position, i: usize, columns: u64, right: bool, up: bool) -> (r:
    Position)
    requires
        columns > 0,
    ensures
        r == grid_slot_toward(origin, i as nat, columns as nat, right, up),
{
    let col: u64 = (i as u64) % columns;
    let row: u64 = (i as u64) / columns;
    assert(GRID_SPACING * col <= 80_000 * 0xFFFF_FFFF_FFFF_FFFF) by (nonlinear_arith)
        requires
            GRID_SPACING == 80_000,
            col <= 0xFFFF_FFFF_FFFF_FFFF,
    ;
    assert(GRID_SPACING * row <= 80_000 * 0xFFFF_FFFF_FFFF_FFFF) by (nonlinear_arith)
        requires
            GRID_SPACING == 80_000,
            row <= 0xFFFF_FFFF_FFFF_FFFF,
    ;
    let across: i128 = (GRID_SPACING as i128) * (col as i128);
    let along: i128 = (GRID_SPACING as i128) * (row as i128);
    Position {
        x: clamp_to_coord(
            if right {
                origin.x as i128 + across
            } else {
                origin.x as i128 - across
            },
        ),
        y: clamp_to_coord(
            if up {
                origin.y as i128 + along
            } else {
                origin.y as i128 - along
            },
        ),
    }
}

/// The position of cell `i` of a formation grid of `columns` columns whose
/// first cell is at `origin`.
pub fn grid_position(origin: Position, i: usize, columns: u64) -> (r: Position)
    requires
        columns > 0,
    ensures
        r == grid_slot(origin, i as nat, columns as nat),
{
    grid_position_toward(origin, i, columns, true, false)
}

/// A move toward a target ends no farther from the target than it began.
pub proof fn lemma_step_toward_approaches(from: Position, to: Position, step: nat)
    ensures
        dist_sq(stepped_toward(from, to, step), to) <= dist_sq(from, to),
{
    let dx = to.x - from.x;
    let dy = to.y - from.y;
    let len = isqrt(length_squared(dx, dy));
    if step >= len {
        assert(dist_sq(to, to) == 0) by (nonlinear_arith)
            requires
                dist_sq(to, to) == (0 * 0 + 0 * 0) as nat,
        ;
    } else {
        let after = stepped_toward(from, to, step);
        lemma_scaled_within(dx, step, len);
        lemma_scaled_within(dy, step, len);
        let mx = scaled(dx, step, len);
        let my = scaled(dy, step, len);
        assert(after.x == from.x + mx);
        assert(after.y == from.y + my);
        lemma_square_shrinks(dx, mx);
        lemma_square_shrinks(dy, my);
        assert((dx - mx) * (dx - mx) >= 0 && (dy - my) * (dy - my) >= 0) by (nonlinear_arith);
        assert(dist_sq(after, to) == (dx - mx) * (dx - mx) + (dy - my) * (dy - my));
        assert(dist_sq(from, to) == dx * dx + dy * dy) by (nonlinear_arith)
            requires
                dist_sq(from, to) == (dx * dx + dy * dy) as nat,
        ;
    }
}

/// A move of any length but zero toward a target that has not been reached
/// ends closer to the target than it began.
pub proof fn lemma_step_toward_gets_closer(from: Position, to: Position, step: nat)
    requires
        step >= 1,
        from != to,
    ensures
        dist_sq(stepped_toward(from, to, step), to) < dist_sq(from, to),
{
    let dx = to.x - from.x;
    let dy = to.y - from.y;
    let len = isqrt(length_squared(dx, dy));
    let a: int = if dx >= 0 { dx } else { -dx };
    let b: int = if dy >= 0 { dy } else { -dy };
    assert(a * a == dx * dx && b * b == dy * dy && a * a + b * b >= 1) by (nonlinear_arith)
        requires
            a == dx || a == -dx,
            b == dy || b == -dy,
            a >= 0,
            b >= 0,
            a != 0 || b != 0,
    ;
    assert(dist_sq(from, to) == dx * dx + dy * dy);
    if step >= len {
        assert(dist_sq(to, to) == 0) by (nonlinear_arith)
            requires
                dist_sq(to, to) == (0 * 0 + 0 * 0) as nat,
        ;
    } else {
        let after = stepped_toward(from, to, step);
        lemma_isqrt_bracket(length_squared(dx, dy));
        lemma_scaled_within(dx, step, len);
        lemma_scaled_within(dy, step, len);
        let mx = scaled(dx, step, len);
        let my = scaled(dy, step, len);
        assert(after.x == from.x + mx);
        assert(after.y == from.y + my);
        lemma_square_shrinks(dx, mx);
        lemma_square_shrinks(dy, my);
        assert(len * len <= a * a + b * b);
        if a >= b {
            lemma_longer_component_moves(a, b, step, len);
            assert(mx != 0);
        } else {
            lemma_longer_component_moves(b, a, step, len);
            assert(my != 0);
        }
        assert((dx - mx) * (dx - mx) >= 0 && (dy - my) * (dy - my) >= 0) by (nonlinear_arith);
        assert(dist_sq(after, to) == (dx - mx) * (dx - mx) + (dy - my) * (dy - my));
    }
}

/// Rescaled to any length but zero, the longer component of a displacement
/// does not round to zero.
proof fn lemma_longer_component_moves(a: int, b: int, step: nat, len: nat)
    requires
        0 <= b <= a,
        0 < len,
        len * len <= a * a + b * b,
        1 <= step,
    ensures
        (2 * a * step + len) / ((2 * len) as int) >= 1,
{
    assert(len <= 2 * a) by (nonlinear_arith)
        requires
            0 <= b <= a,
            0 < len,
            len * len <= a * a + b * b,
    ;
    assert(2 * a * step >= len) by (nonlinear_arith)
        requires
            len <= 2 * a,
            1 <= step,
            0 <= a,
    ;
    assert((2 * a * step + len) / ((2 * len) as int) >= 1) by (nonlinear_arith)
        requires
            2 * a * step >= len,
            0 < len,
    ;
}

/// A rescaled component keeps its sign and, for `step <= len`, does not grow.
pub proof fn lemma_scaled_within(d: int, step: nat, len: nat)
    requires
        len > 0,
        step <= len,
    ensures
        d >= 0 ==> 0 <= scaled(d, step, len) <= d,
        d < 0 ==> d <= scaled(d, step, len) <= 0,
{
    let a: int = if d >= 0 { d } else { -d };
    let q = (2 * a * step + len) / ((2 * len) as int);
    assert(0 <= q <= a) by (nonlinear_arith)
        requires
            a >= 0,
            len > 0,
            step <= len,
            q == (2 * a * step + len) / ((2 * len) as int),
    ;
}

/// Taking part of a component away, without passing zero, does not increase
/// its square.
pub proof fn lemma_square_shrinks(d: int, m: int)
    requires
        (d >= 0 && 0 <= m <= d) || (d < 0 && d <= m <= 0),
    ensures
        (d - m) * (d - m) <= d * d,
        m != 0 ==> (d - m) * (d - m) < d * d,
{
    assert((d - m) * (d - m) <= d * d && (m != 0 ==> (d - m) * (d - m) < d * d)) by (nonlinear_arith)
        requires
            (d >= 0 && 0 <= m <= d) || (d < 0 && d <= m <= 0),
    ;
}

/// Whether cell `i` of a grid lies within the coordinate range, so that
/// neither of its coordinates saturates.
pub open spec fn cell_fits(origin: Position, i: nat, columns: nat, right: bool, up: bool) -> bool {
    let (col, row) = grid_cell(i, columns);
    &&& i32::MIN <= origin.x + GRID_SPACING * col <= i32::MAX || !right
    &&& i32::MIN <= origin.x - GRID_SPACING * col <= i32::MAX || right
    &&& i32::MIN <= origin.y + GRID_SPACING * row <= i32::MAX || !up
    &&& i32::MIN <= origin.y - GRID_SPACING * row <= i32::MAX || up
}

/// Away from the ends of the coordinate range a grid is a lattice: cell `i`
/// stands a whole number of spacings from the first cell, `i` modulo the
/// number of columns across and `i` divided by it along; the first cell
/// stands at the origin; and two cells never share a place.
pub proof fn lemma_grid_is_a_lattice(
    origin: Position,
    i: nat,
    j: nat,
    columns: nat,
    right: bool,
    up: bool,
)
    requires
        columns > 0,
        cell_fits(origin, i, columns, right, up),
        cell_fits(origin, j, columns, right, up),
    ensures
        grid_cell(i, columns).0 < columns,
        grid_slot_toward(origin, i, columns, right, up).x == (if right {
            origin.x + GRID_SPACING * grid_cell(i, columns).0
        } else {
            origin.x - GRID_SPACING * grid_cell(i, columns).0
        }),
        grid_slot_toward(origin, i, columns, right, up).y == (if up {
            origin.y + GRID_SPACING * grid_cell(i, columns).1
        } else {
            origin.y - GRID_SPACING * grid_cell(i, columns).1
        }),
        grid_slot_toward(origin, 0, columns, right, up) == origin,
        i != j ==> grid_slot_toward(origin, i, columns, right, up) != grid_slot_toward(
            origin,
            j,
            columns,
            right,
            up,
        ),
{
    let (ci, ri) = grid_cell(i, columns);
    let (cj, rj) = grid_cell(j, columns);
    assert(GRID_SPACING == 80_000);
    assert(0nat % columns == 0 && 0nat / columns == 0) by (nonlinear_arith)
        requires
            columns > 0,
    ;
    assert(ci < columns) by (nonlinear_arith)
        requires
            columns > 0,
            ci == i % columns,
    ;
    vstd::arithmetic::div_mod::lemma_fundamental_div_mod(i as int, columns as int);
    vstd::arithmetic::div_mod::lemma_fundamental_div_mod(j as int, columns as int);
    if i != j && grid_slot_toward(origin, i, columns, right, up) == grid_slot_toward(
        origin,
        j,
        columns,
        right,
        up,
    ) {
        assert(80_000 * ci == 80_000 * cj);
        assert(80_000 * ri == 80_000 * rj);
        assert(ci == cj && ri == rj);
        assert(columns * ri == columns * rj) by (nonlinear_arith)
            requires
                ri == rj,
        ;
        assert(false);
    }
}

} // verus!
