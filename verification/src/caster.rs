//! The ray caster: marches a ray through the grid in fixed steps and
//! returns the first wall hit with its distance, impacted symbol, struck
//! side and normalized texture coordinates. Unknown space is solid and an
//! exhausted march yields a far-wall sentinel, so a caller always receives
//! an intersection.

use vstd::arithmetic::div_mod::{lemma_div_is_ordered, lemma_div_pos_is_pos};
use vstd::prelude::*;

use crate::angle::{cos_spec, sin_spec, ANGLE_TURN, TRIG_ONE};
use crate::cells::{is_wall_sym, is_wall_cell};
use crate::maze::{cell_at, grid_width, MazeData};
use crate::num::{div_toward_zero, div_trunc};
use crate::player::Player;
use crate::SUB;

verus! {

/// Furthest march distance, in subunits (1000 world units); the sentinel
/// intersection reports this distance.
pub const MAX_DISTANCE: i64 = 2000;

/// March step, in subunits (1.5 world units).
pub const STEP_SIZE: i64 = 3;

/// Iteration budget of one march.
pub const MAX_ITERATIONS: u32 = 400;

/// Distance from eye to projection plane, in world units.
pub const PROJECTION_PLANE_DISTANCE: i64 = 100;

/// The fixed-point unit for normalized texture coordinates: a coordinate
/// ranges over `[0, TEX_ONE]` for "0 to 1".
pub const TEX_ONE: i64 = 1024;

/// Which of the four axis-aligned cell faces a ray struck. Used for light
/// attenuation and texture axis selection, not compass navigation.
#[derive(Debug, Clone, Copy, PartialEq, Eq, Structural)]
pub enum WallSide {
    North,
    South,
    East,
    West,
}

/// One ray-grid intersection: march distance in subunits, the impacted
/// cell symbol, texture coordinates in `[0, TEX_ONE]`, and the struck side.
#[derive(Debug, Clone, PartialEq, Eq, Structural)]
pub struct Intersect {
    pub distance: i64,
    pub impact: char,
    pub texture_x: i64,
    pub texture_y: i64,
    pub side: WallSide,
}

/// The sentinel returned when no wall is found: a far wall at maximum
/// distance, so the renderer never sees "no intersection".
pub open spec fn default_intersect() -> Intersect {
    Intersect {
        distance: MAX_DISTANCE,
        impact: '#',
        texture_x: 0 as i64,
        texture_y: 0 as i64,
        side: WallSide::North,
    }
}

/// The fail-safe hit reported for rays leaving known space: a plain wall
/// at the current distance.
pub open spec fn wall_intersect(dist: int) -> Intersect {
    Intersect {
        distance: dist as i64,
        impact: '#',
        texture_x: 0 as i64,
        texture_y: 0 as i64,
        side: WallSide::North,
    }
}

/// Side selection from the normalized cell offsets `(u, v)`: the side with
/// the smallest margin among West `u`, East `TEX_ONE - u`, North `v`,
/// South `TEX_ONE - v`, a tie going to the earlier entry in that fixed
/// order.
pub open spec fn side_spec(u: int, v: int) -> WallSide {
    let m_w = u;
    let m_e = TEX_ONE - u;
    let m_n = v;
    let m_s = TEX_ONE - v;
    let m1 = if m_e < m_w { m_e } else { m_w };
    let s1 = if m_e < m_w { WallSide::East } else { WallSide::West };
    let m2 = if m_n < m1 { m_n } else { m1 };
    let s2 = if m_n < m1 { WallSide::North } else { s1 };
    if m_s < m2 { WallSide::South } else { s2 }
}

/// Horizontal texture coordinate: the axes swap for East/West sides so a
/// texture is sampled consistently on every wall orientation.
pub open spec fn tex_x_spec(side: WallSide, u: int, v: int) -> int {
    match side {
        WallSide::North | WallSide::South => u,
        WallSide::East | WallSide::West => v,
    }
}

/// Vertical texture coordinate; see `tex_x_spec`.
pub open spec fn tex_y_spec(side: WallSide, u: int, v: int) -> int {
    match side {
        WallSide::North | WallSide::South => v,
        WallSide::East | WallSide::West => u,
    }
}

/// The offset of a march point along one axis: `dist * trig / TRIG_ONE`
/// rounded toward zero.
pub open spec fn ray_offset(dist: int, trig: int) -> int {
    div_trunc(dist * trig, TRIG_ONE as int)
}

/// The intersection built at a wall hit: normalized offsets within the
/// cell give the side and the texture coordinates.
pub open spec fn hit_intersect(rx: int, ry: int, cell: int, dist: int, c: char) -> Intersect {
    let nx = (rx % cell) * TEX_ONE / cell;
    let ny = (ry % cell) * TEX_ONE / cell;
    let side = side_spec(nx, ny);
    Intersect {
        distance: dist as i64,
        impact: c,
        texture_x: tex_x_spec(side, nx, ny) as i64,
        texture_y: tex_y_spec(side, nx, ny) as i64,
        side,
    }
}

/// One march from distance `dist` with `fuel` steps left: the first wall
/// hit, a fail-safe wall for points outside known space, or the sentinel
/// when the budget or the distance cap runs out.
pub open spec fn march_spec(
    g: Seq<Seq<char>>,
    px: int,
    py: int,
    cos_a: int,
    sin_a: int,
    cell: int,
    dist: int,
    fuel: nat,
) -> Intersect
    decreases fuel,
{
    if fuel == 0 {
        default_intersect()
    } else if dist > MAX_DISTANCE {
        default_intersect()
    } else {
        let rx = px + ray_offset(dist, cos_a);
        let ry = py + ray_offset(dist, sin_a);
        if rx < 0 || ry < 0 {
            wall_intersect(dist)
        } else {
            let gx = rx / cell;
            let gy = ry / cell;
            if gy >= g.len() || gx >= grid_width(g) {
                wall_intersect(dist)
            } else {
                let c = cell_at(g, gx, gy);
                if is_wall_sym(c) {
                    hit_intersect(rx, ry, cell, dist, c)
                } else {
                    march_spec(g, px, py, cos_a, sin_a, cell, dist + STEP_SIZE, (fuel - 1) as nat)
                }
            }
        }
    }
}

/// The full cast: the sentinel for an empty or zero-width maze, else a
/// march from the first step.
pub open spec fn cast_spec(
    g: Seq<Seq<char>>,
    px: int,
    py: int,
    cos_a: int,
    sin_a: int,
    cell: int,
) -> Intersect {
    if g.len() == 0 || grid_width(g) == 0 {
        default_intersect()
    } else {
        march_spec(g, px, py, cos_a, sin_a, cell, STEP_SIZE as int, MAX_ITERATIONS as nat)
    }
}

/// Every march result carries a distance in `(0, MAX_DISTANCE]` and
/// texture coordinates in `[0, TEX_ONE]`.
pub proof fn lemma_march_bounds(
    g: Seq<Seq<char>>,
    px: int,
    py: int,
    cos_a: int,
    sin_a: int,
    cell: int,
    dist: int,
    fuel: nat,
)
    requires
        0 < cell,
        0 < dist <= MAX_DISTANCE + STEP_SIZE,
    ensures
        0 < march_spec(g, px, py, cos_a, sin_a, cell, dist, fuel).distance <= MAX_DISTANCE,
        0 <= march_spec(g, px, py, cos_a, sin_a, cell, dist, fuel).texture_x <= TEX_ONE,
        0 <= march_spec(g, px, py, cos_a, sin_a, cell, dist, fuel).texture_y <= TEX_ONE,
    decreases fuel,
{
    if fuel == 0 || dist > MAX_DISTANCE {
    } else {
        let rx = px + ray_offset(dist, cos_a);
        let ry = py + ray_offset(dist, sin_a);
        if rx < 0 || ry < 0 {
        } else {
            let gx = rx / cell;
            let gy = ry / cell;
            if gy >= g.len() || gx >= grid_width(g) {
            } else if is_wall_sym(cell_at(g, gx, gy)) {
                lemma_hit_tex_bounds(rx, ry, cell);
            } else {
                lemma_march_bounds(g, px, py, cos_a, sin_a, cell, dist + STEP_SIZE, (fuel - 1) as nat);
            }
        }
    }
}

/// Normalized cell offsets lie in `[0, TEX_ONE)`.
proof fn lemma_norm_bounds(r: int, cell: int)
    requires
        0 <= r,
        0 < cell,
    ensures
        0 <= (r % cell) * TEX_ONE / cell < TEX_ONE,
{
    let c = r % cell;
    assert(0 <= c < cell);
    lemma_div_pos_is_pos(c * TEX_ONE, cell);
    assert(c * TEX_ONE <= (cell - 1) * TEX_ONE) by (nonlinear_arith)
        requires
            c <= cell - 1,
    ;
    lemma_div_is_ordered(c * TEX_ONE, (cell - 1) * TEX_ONE, cell);
    assert(((cell - 1) * TEX_ONE) / cell < TEX_ONE) by (nonlinear_arith)
        requires
            cell > 0,
    ;
}

/// Texture coordinates of a hit lie in `[0, TEX_ONE)`.
proof fn lemma_hit_tex_bounds(rx: int, ry: int, cell: int)
    requires
        0 <= rx,
        0 <= ry,
        0 < cell,
    ensures
        0 <= hit_intersect(rx, ry, cell, 0, ' ').texture_x < TEX_ONE,
        0 <= hit_intersect(rx, ry, cell, 0, ' ').texture_y < TEX_ONE,
        forall|dist: int, c: char|
            (#[trigger] hit_intersect(rx, ry, cell, dist, c)).texture_x == hit_intersect(
                rx, ry, cell, 0, ' ',
            ).texture_x && hit_intersect(rx, ry, cell, dist, c).texture_y == hit_intersect(
                rx, ry, cell, 0, ' ',
            ).texture_y,
{
    lemma_norm_bounds(rx, cell);
    lemma_norm_bounds(ry, cell);
}

/// Builds the sentinel intersection.
pub fn create_default_intersect() -> (r: Intersect)
    ensures
        r == default_intersect(),
{
    Intersect {
        distance: MAX_DISTANCE,
        impact: '#',
        texture_x: 0,
        texture_y: 0,
        side: WallSide::North,
    }
}

/// Builds the fail-safe wall hit at `distance`.
pub fn create_wall_intersect(distance: i64) -> (r: Intersect)
    ensures
        r == wall_intersect(distance as int),
{
    Intersect { distance, impact: '#', texture_x: 0, texture_y: 0, side: WallSide::North }
}

/// Picks the struck side from the normalized cell offsets. The result
/// depends on `(norm_x, norm_y)` alone, with the fixed tie-break of
/// `side_spec`, so equal offsets always give the same side.
pub fn determine_wall_side(norm_x: i64, norm_y: i64) -> (r: WallSide)
    requires
        0 <= norm_x <= TEX_ONE,
        0 <= norm_y <= TEX_ONE,
    ensures
        r == side_spec(norm_x as int, norm_y as int),
{
    let m_w = norm_x;
    let m_e = TEX_ONE - norm_x;
    let m_n = norm_y;
    let m_s = TEX_ONE - norm_y;
    let mut best = m_w;
    let mut side = WallSide::West;
    if m_e < best {
        best = m_e;
        side = WallSide::East;
    }
    if m_n < best {
        best = m_n;
        side = WallSide::North;
    }
    if m_s < best {
        side = WallSide::South;
    }
    side
}

/// Swaps the texture axes for East/West sides.
pub fn calculate_texture_coordinates(side: WallSide, norm_x: i64, norm_y: i64) -> (r: (i64, i64))
    ensures
        r.0 == tex_x_spec(side, norm_x as int, norm_y as int),
        r.1 == tex_y_spec(side, norm_x as int, norm_y as int),
{
    match side {
        WallSide::North | WallSide::South => (norm_x, norm_y),
        WallSide::East | WallSide::West => (norm_y, norm_x),
    }
}

/// Casts one ray from the player through the maze at the reduced angle
/// `angle`, in fixed steps of `STEP_SIZE` up to `MAX_ITERATIONS` steps or
/// `MAX_DISTANCE` subunits. The result is exactly `cast_spec` on the ray
/// direction; in particular it always carries a positive distance at most
/// `MAX_DISTANCE` and texture coordinates within `[0, TEX_ONE]`, and an
/// empty maze yields the sentinel without stepping.
pub fn cast_ray_textured(maze: &MazeData, player: &Player, angle: i64, block_size: usize) -> (r:
    Intersect)
    requires
        maze.wf(),
        0 <= angle < ANGLE_TURN,
        0 < block_size <= 0x10000,
        -0x4000_0000 <= player.x <= 0x4000_0000,
        -0x4000_0000 <= player.y <= 0x4000_0000,
    ensures
        r == cast_spec(
            maze.view_grid(),
            player.x as int,
            player.y as int,
            cos_spec(angle as int),
            sin_spec(angle as int),
            (block_size * SUB) as int,
        ),
        0 < r.distance <= MAX_DISTANCE,
        0 <= r.texture_x <= TEX_ONE,
        0 <= r.texture_y <= TEX_ONE,
        maze.view_grid().len() == 0 || grid_width(maze.view_grid()) == 0 ==> r
            == default_intersect(),
{
    let ghost g = maze.view_grid();
    let ghost cell_i = (block_size * SUB) as int;
    let cos_a = crate::angle::cos_angle(angle);
    let sin_a = crate::angle::sin_angle(angle);
    proof {
        lemma_march_bounds(
            g,
            player.x as int,
            player.y as int,
            cos_a as int,
            sin_a as int,
            cell_i,
            STEP_SIZE as int,
            MAX_ITERATIONS as nat,
        );
    }
    if maze.is_empty() {
        return create_default_intersect();
    }
    let maze_height = maze.len();
    let maze_width = maze.width;
    if maze_width == 0 {
        return create_default_intersect();
    }
    let cell = (block_size as i64) * SUB;
    let ghost target = march_spec(
        g,
        player.x as int,
        player.y as int,
        cos_a as int,
        sin_a as int,
        cell_i,
        STEP_SIZE as int,
        MAX_ITERATIONS as nat,
    );
    let mut distance: i64 = STEP_SIZE;
    let mut i: u32 = 0;
    while i < MAX_ITERATIONS
        invariant
            maze.wf(),
            g == maze.view_grid(),
            g.len() > 0,
            grid_width(g) > 0,
            maze_height == g.len(),
            maze_width == grid_width(g),
            0 < block_size <= 0x10000,
            cell == cell_i,
            cell == block_size * SUB,
            -0x4000_0000 <= player.x <= 0x4000_0000,
            -0x4000_0000 <= player.y <= 0x4000_0000,
            -TRIG_ONE <= cos_a <= TRIG_ONE,
            -TRIG_ONE <= sin_a <= TRIG_ONE,
            0 <= i <= MAX_ITERATIONS,
            distance == STEP_SIZE + i * STEP_SIZE,
            cos_a == cos_spec(angle as int),
            sin_a == sin_spec(angle as int),
            0 <= angle < ANGLE_TURN,
            target == cast_spec(
                g,
                player.x as int,
                player.y as int,
                cos_spec(angle as int),
                sin_spec(angle as int),
                (block_size * SUB) as int,
            ),
            0 < target.distance <= MAX_DISTANCE,
            0 <= target.texture_x <= TEX_ONE,
            0 <= target.texture_y <= TEX_ONE,
            target == march_spec(
                g,
                player.x as int,
                player.y as int,
                cos_a as int,
                sin_a as int,
                cell_i,
                distance as int,
                (MAX_ITERATIONS - i) as nat,
            ),
        ensures
            target == default_intersect(),
        decreases MAX_ITERATIONS - i,
    {
        if distance > MAX_DISTANCE {
            break;
        }
        proof {
            reveal_with_fuel(march_spec, 2);
            assert(-0x4000_0000_0000 <= distance * cos_a <= 0x4000_0000_0000
                && -0x4000_0000_0000 <= distance * sin_a <= 0x4000_0000_0000)
                by (nonlinear_arith)
                requires
                    0 < distance <= MAX_DISTANCE,
                    -TRIG_ONE <= cos_a <= TRIG_ONE,
                    -TRIG_ONE <= sin_a <= TRIG_ONE,
            ;
        }
        let dx = div_toward_zero(distance * cos_a, TRIG_ONE);
        let dy = div_toward_zero(distance * sin_a, TRIG_ONE);
        let ray_x = player.x + dx;
        let ray_y = player.y + dy;
        proof {
            assert(ray_x == player.x + ray_offset(distance as int, cos_a as int));
            assert(ray_y == player.y + ray_offset(distance as int, sin_a as int));
        }
        if ray_x < 0 || ray_y < 0 {
            return create_wall_intersect(distance);
        }
        let grid_x = (ray_x as u64) / (cell as u64);
        let grid_y = (ray_y as u64) / (cell as u64);
        if grid_y >= maze_height as u64 || grid_x >= maze_width as u64 {
            return create_wall_intersect(distance);
        }
        let current_cell = maze.get_cell(grid_x as usize, grid_y as usize);
        if is_wall_cell(current_cell) {
            let cell_x = ray_x % cell;
            let cell_y = ray_y % cell;
            let norm_x = cell_x * TEX_ONE / cell;
            let norm_y = cell_y * TEX_ONE / cell;
            proof {
                lemma_norm_bounds(ray_x as int, cell_i);
                lemma_norm_bounds(ray_y as int, cell_i);
            }
            let side = determine_wall_side(norm_x, norm_y);
            let (texture_x, texture_y) = calculate_texture_coordinates(side, norm_x, norm_y);
            return Intersect { distance, impact: current_cell, texture_x, texture_y, side };
        }
        distance = distance + STEP_SIZE;
        i = i + 1;
    }
    create_default_intersect()
}

/// Casts a ray; alias of `cast_ray_textured` kept for callers of the
/// plain interface.
pub fn cast_ray_safe(maze: &MazeData, player: &Player, angle: i64, block_size: usize) -> (r:
    Intersect)
    requires
        maze.wf(),
        0 <= angle < ANGLE_TURN,
        0 < block_size <= 0x10000,
        -0x4000_0000 <= player.x <= 0x4000_0000,
        -0x4000_0000 <= player.y <= 0x4000_0000,
    ensures
        r == cast_spec(
            maze.view_grid(),
            player.x as int,
            player.y as int,
            cos_spec(angle as int),
            sin_spec(angle as int),
            (block_size * SUB) as int,
        ),
{
    cast_ray_textured(maze, player, angle, block_size)
}

/// In a maze whose every cell is a wall, the very first step of a march
/// is already a hit: the reported distance is one step, well below two
/// cell widths, the impact is a wall symbol, and when the sample point
/// lies inside the grid the impact is exactly that cell's symbol.
pub proof fn lemma_cast_all_walls(
    g: Seq<Seq<char>>,
    px: int,
    py: int,
    cos_a: int,
    sin_a: int,
    cell: int,
)
    requires
        g.len() > 0,
        grid_width(g) > 0,
        cell >= SUB,
        forall|x: int, y: int| is_wall_sym(#[trigger] cell_at(g, x, y)),
    ensures
        cast_spec(g, px, py, cos_a, sin_a, cell).distance == STEP_SIZE,
        cast_spec(g, px, py, cos_a, sin_a, cell).distance < 2 * cell,
        is_wall_sym(cast_spec(g, px, py, cos_a, sin_a, cell).impact),
        ({
            let rx = px + ray_offset(STEP_SIZE as int, cos_a);
            let ry = py + ray_offset(STEP_SIZE as int, sin_a);
            rx >= 0 && ry >= 0 && ry / cell < g.len() && rx / cell < grid_width(g)
                ==> cast_spec(g, px, py, cos_a, sin_a, cell).impact == cell_at(
                g, rx / cell, ry / cell,
            )
        }),
{
    let rx = px + ray_offset(STEP_SIZE as int, cos_a);
    let ry = py + ray_offset(STEP_SIZE as int, sin_a);
    if rx < 0 || ry < 0 {
    } else {
        let gx = rx / cell;
        let gy = ry / cell;
        if gy >= g.len() || gx >= grid_width(g) {
        } else {
            assert(is_wall_sym(cell_at(g, gx, gy)));
        }
    }
}

} // verus!
