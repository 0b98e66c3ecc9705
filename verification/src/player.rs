//! The player pose: world position in subunits, heading and field of view
//! in angle units, and the collision radius, plus the movement step that
//! applies one frame of input against the maze.

use vstd::prelude::*;

use crate::angle::{
    angle_mod, cos_angle, sin_angle, wrap_angle, ANGLE_HALF, ANGLE_QUARTER, ANGLE_TURN, TRIG_ONE,
};
use crate::cells::is_walkable_sym;
use crate::maze::{grid_view, Maze};
use crate::num::div_toward_zero;
use crate::SUB;

verus! {

/// Default heading and field of view: a sixth of a turn (60 degrees).
pub const DEFAULT_FOV: i64 = 10923;

/// Default collision radius, in subunits (20 world units).
pub const DEFAULT_RADIUS: i64 = 40;

/// The player pose. `x` and `y` are in subunits, `a` is the reduced
/// heading, `fov` the field of view, both in angle units.
#[derive(Debug, Clone, PartialEq, Eq, Structural)]
pub struct Player {
    pub x: i64,
    pub y: i64,
    pub a: i64,
    pub fov: i64,
    pub radius: i64,
}

impl Player {
    /// Well-formedness: the heading is reduced and the view cone is a
    /// nonempty cone of less than half a turn.
    pub open spec fn wf(self) -> bool {
        &&& 0 <= self.a < ANGLE_TURN
        &&& 0 < self.fov <= ANGLE_HALF
        &&& 0 <= self.radius <= 0x10000
        &&& -0x4000_0000 <= self.x <= 0x4000_0000
        &&& -0x4000_0000 <= self.y <= 0x4000_0000
    }

    /// The default pose: position (150, 150) in world units, heading a
    /// sixth of a turn.
    pub fn new() -> (r: Player)
        ensures
            r.wf(),
            r.x == 150 * SUB && r.y == 150 * SUB,
            r.a == DEFAULT_FOV,
            r.fov == DEFAULT_FOV,
            r.radius == DEFAULT_RADIUS,
    {
        Player { x: 150 * SUB, y: 150 * SUB, a: DEFAULT_FOV, fov: DEFAULT_FOV, radius: DEFAULT_RADIUS }
    }

    /// A pose at the given position and reduced heading.
    pub fn new_with_pos(x: i64, y: i64, angle: i64) -> (r: Player)
        requires
            0 <= angle < ANGLE_TURN,
            -0x4000_0000 <= x <= 0x4000_0000,
            -0x4000_0000 <= y <= 0x4000_0000,
        ensures
            r.wf(),
            r.x == x && r.y == y && r.a == angle,
            r.fov == DEFAULT_FOV,
            r.radius == DEFAULT_RADIUS,
    {
        Player { x, y, a: angle, fov: DEFAULT_FOV, radius: DEFAULT_RADIUS }
    }
}

/// One frame of movement input, as plain flags decoded from the window
/// layer: rotation, forward and backward motion, and strafing.
#[derive(Debug, Clone, Copy, PartialEq, Eq, Structural)]
pub struct InputState {
    pub turn_right: bool,
    pub turn_left: bool,
    pub forward: bool,
    pub backward: bool,
    pub strafe_right: bool,
    pub strafe_left: bool,
}

/// Forward speed per frame, in subunits (18 world units).
pub const MOVE_SPEED: i64 = 36;

/// Rotation per frame, in angle units (ten degrees).
pub const ROTATION_SPEED: i64 = 1820;

/// Mouse sensitivity, in angle units per mouse count.
pub const MOUSE_SENSITIVITY: i64 = 21;

/// The heading after one frame of rotation keys, reduced into a turn.
pub open spec fn heading_after(a: int, input: InputState) -> int {
    angle_mod(
        a + (if input.turn_right {
            ROTATION_SPEED as int
        } else {
            0
        }) - (if input.turn_left {
            ROTATION_SPEED as int
        } else {
            0
        }),
    )
}

/// Whether one world point lies on a walkable cell: inside the world
/// rectangle, inside the stored rows, and on a walkable symbol.
#[verifier::opaque]
pub open spec fn pos_walkable(g: Seq<Seq<char>>, x: int, y: int, block: int) -> bool {
    let cell = block * (SUB as int);
    let gx = x / cell;
    let gy = y / cell;
    &&& x >= 0
    &&& y >= 0
    &&& gy < g.len()
    &&& gx < g[gy].len()
    &&& is_walkable_sym(g[gy][gx])
}

/// Whether the player body may stand at a world point: the point is within
/// the world rectangle and all nine body probe points are walkable.
#[verifier::opaque]
pub open spec fn can_stand(g: Seq<Seq<char>>, x: int, y: int, radius: int, block: int) -> bool {
    let d = radius * 7 / 10;
    &&& 0 <= x <= 20000
    &&& 0 <= y <= 20000
    &&& g.len() > 0
    &&& pos_walkable(g, x, y, block)
    &&& pos_walkable(g, x + radius, y, block)
    &&& pos_walkable(g, x - radius, y, block)
    &&& pos_walkable(g, x, y + radius, block)
    &&& pos_walkable(g, x, y - radius, block)
    &&& pos_walkable(g, x + d, y + d, block)
    &&& pos_walkable(g, x - d, y - d, block)
    &&& pos_walkable(g, x + d, y - d, block)
    &&& pos_walkable(g, x - d, y + d, block)
}

/// Whether one world point lies on a walkable cell of the grid.
fn is_position_walkable_safe(x: i64, y: i64, maze: &Maze, block_size: usize) -> (r: bool)
    requires
        0 < block_size <= 0x10000,
        -0x4000_1000 <= x <= 0x4000_1000,
        -0x4000_1000 <= y <= 0x4000_1000,
    ensures
        r == pos_walkable(grid_view(*maze), x as int, y as int, block_size as int),
{
    proof {
        reveal(pos_walkable);
    }
    if x < 0 || y < 0 {
        return false;
    }
    proof {
        assert(2 <= (block_size as u64) * (SUB as u64) <= 0x20000) by (nonlinear_arith)
            requires
                1 <= block_size as u64 <= 0x10000,
                SUB == 2,
        ;
    }
    let cell = (block_size as u64) * (SUB as u64);
    let grid_x = (x as u64) / cell;
    let grid_y = (y as u64) / cell;
    if grid_y >= maze.len() as u64 {
        return false;
    }
    let row = &maze[grid_y as usize];
    if grid_x >= row.len() as u64 {
        return false;
    }
    let cell_sym = row[grid_x as usize];
    proof {
        assert(grid_view(*maze)[grid_y as int] == maze@[grid_y as int]@);
    }
    if cell_sym == 't' {
        return true;
    }
    cell_sym == ' ' || cell_sym == 'k' || cell_sym == 't' || cell_sym == 'l' || cell_sym == 'c'
        || cell_sym == 'e'
}

/// Whether the player body may stand at a world point of the grid.
pub fn can_move_to_safe(x: i64, y: i64, maze: &Maze, block_size: usize, radius: i64) -> (r: bool)
    requires
        0 < block_size <= 0x10000,
        -0x4000_0800 <= x <= 0x4000_0800,
        -0x4000_0800 <= y <= 0x4000_0800,
        0 <= radius <= 0x10000,
    ensures
        r == can_stand(grid_view(*maze), x as int, y as int, radius as int, block_size as int),
        r ==> 0 <= x <= 20000 && 0 <= y <= 20000,
{
    proof {
        reveal(can_stand);
    }
    if x < 0 || y < 0 || x > 20000 || y > 20000 {
        return false;
    }
    if maze.len() == 0 {
        return false;
    }
    let d = radius * 7 / 10;
    proof {
        vstd::arithmetic::div_mod::lemma_div_pos_is_pos(radius as int * 7, 10);
        vstd::arithmetic::div_mod::lemma_div_is_ordered(radius as int * 7, radius as int * 10, 10);
        assert((radius as int * 10) / 10 == radius as int) by (nonlinear_arith);
    }
    is_position_walkable_safe(x, y, maze, block_size) && is_position_walkable_safe(
        x + radius,
        y,
        maze,
        block_size,
    ) && is_position_walkable_safe(x - radius, y, maze, block_size) && is_position_walkable_safe(
        x,
        y + radius,
        maze,
        block_size,
    ) && is_position_walkable_safe(x, y - radius, maze, block_size) && is_position_walkable_safe(
        x + d,
        y + d,
        maze,
        block_size,
    ) && is_position_walkable_safe(x - d, y - d, maze, block_size) && is_position_walkable_safe(
        x + d,
        y - d,
        maze,
        block_size,
    ) && is_position_walkable_safe(x - d, y + d, maze, block_size)
}

/// Applies one frame of input: rotation first, then forward or backward
/// motion with axis-sliding on a blocked diagonal, then strafing — every
/// accepted move validated by the nine-point body probe. The heading
/// becomes exactly `heading_after`; the position either stays or ends on
/// a spot where the whole body fits.
#[verifier::rlimit(100)]
pub fn process_events_with_maze_safe(
    player: &mut Player,
    input: &InputState,
    maze: &Maze,
    block_size: usize,
)
    requires
        old(player).wf(),
        0 < block_size <= 0x10000,
    ensures
        final(player).wf(),
        final(player).fov == old(player).fov,
        final(player).radius == old(player).radius,
        final(player).a == heading_after(old(player).a as int, *input),
        (final(player).x == old(player).x && final(player).y == old(player).y) || can_stand(
            grid_view(*maze),
            final(player).x as int,
            final(player).y as int,
            old(player).radius as int,
            block_size as int,
        ),
{
    let mut da: i64 = 0;
    if input.turn_right {
        da = da + ROTATION_SPEED;
    }
    if input.turn_left {
        da = da - ROTATION_SPEED;
    }
    player.a = wrap_angle(player.a + da);
    let cos_a = cos_angle(player.a);
    let sin_a = sin_angle(player.a);
    if input.forward {
        let new_x = player.x + div_toward_zero(MOVE_SPEED * cos_a, TRIG_ONE);
        let new_y = player.y + div_toward_zero(MOVE_SPEED * sin_a, TRIG_ONE);
        if can_move_to_safe(new_x, new_y, maze, block_size, player.radius) {
            player.x = new_x;
            player.y = new_y;
        } else if can_move_to_safe(new_x, player.y, maze, block_size, player.radius) {
            player.x = new_x;
        } else if can_move_to_safe(player.x, new_y, maze, block_size, player.radius) {
            player.y = new_y;
        }
    }
    if input.backward {
        let new_x = player.x - div_toward_zero(MOVE_SPEED * cos_a, TRIG_ONE);
        let new_y = player.y - div_toward_zero(MOVE_SPEED * sin_a, TRIG_ONE);
        if can_move_to_safe(new_x, new_y, maze, block_size, player.radius) {
            player.x = new_x;
            player.y = new_y;
        } else if can_move_to_safe(new_x, player.y, maze, block_size, player.radius) {
            player.x = new_x;
        } else if can_move_to_safe(player.x, new_y, maze, block_size, player.radius) {
            player.y = new_y;
        }
    }
    if input.strafe_right {
        let strafe_angle = wrap_angle(player.a + ANGLE_QUARTER);
        let new_x = player.x + div_toward_zero(MOVE_SPEED * 7 * cos_angle(strafe_angle), TRIG_ONE * 10);
        let new_y = player.y + div_toward_zero(MOVE_SPEED * 7 * sin_angle(strafe_angle), TRIG_ONE * 10);
        if can_move_to_safe(new_x, new_y, maze, block_size, player.radius) {
            player.x = new_x;
            player.y = new_y;
        }
    }
    if input.strafe_left {
        let strafe_angle = wrap_angle(player.a - ANGLE_QUARTER);
        let new_x = player.x + div_toward_zero(MOVE_SPEED * 7 * cos_angle(strafe_angle), TRIG_ONE * 10);
        let new_y = player.y + div_toward_zero(MOVE_SPEED * 7 * sin_angle(strafe_angle), TRIG_ONE * 10);
        if can_move_to_safe(new_x, new_y, maze, block_size, player.radius) {
            player.x = new_x;
            player.y = new_y;
        }
    }
}

/// Turns the heading by a mouse movement, reduced into a turn.
pub fn process_mouse_input_safe(player: &mut Player, mouse_delta: i64)
    requires
        old(player).wf(),
        -0x1000_0000 <= mouse_delta <= 0x1000_0000,
    ensures
        final(player).wf(),
        final(player).x == old(player).x,
        final(player).y == old(player).y,
        final(player).fov == old(player).fov,
        final(player).radius == old(player).radius,
        final(player).a == angle_mod(
            old(player).a - mouse_delta * (MOUSE_SENSITIVITY as int),
        ),
{
    player.a = wrap_angle(player.a - mouse_delta * MOUSE_SENSITIVITY);
}

/// The cell under a world point, read with row-local bounds: `'#'` for
/// negative space, positions below or past the stored rows.
pub fn get_cell_safe(x: i64, y: i64, maze: &Maze, block_size: usize) -> (r: char)
    requires
        0 < block_size <= 0x10000,
        -0x4000_1000 <= x <= 0x4000_1000,
        -0x4000_1000 <= y <= 0x4000_1000,
    ensures
        r == ({
            let g = grid_view(*maze);
            let cell = (block_size * SUB) as int;
            let gx = x as int / cell;
            let gy = y as int / cell;
            if x < 0 || y < 0 || g.len() == 0 || gy >= g.len() || gx >= g[gy].len() {
                '#'
            } else {
                g[gy][gx]
            }
        }),
{
    if x < 0 || y < 0 {
        return '#';
    }
    if maze.len() == 0 {
        return '#';
    }
    proof {
        assert(2 <= (block_size as u64) * (SUB as u64) <= 0x20000) by (nonlinear_arith)
            requires
                1 <= block_size as u64 <= 0x10000,
                SUB == 2,
        ;
    }
    let cell = (block_size as u64) * (SUB as u64);
    let grid_x = (x as u64) / cell;
    let grid_y = (y as u64) / cell;
    if grid_y >= maze.len() as u64 {
        return '#';
    }
    let row = &maze[grid_y as usize];
    proof {
        assert(grid_view(*maze)[grid_y as int] == maze@[grid_y as int]@);
    }
    if grid_x >= row.len() as u64 {
        '#'
    } else {
        row[grid_x as usize]
    }
}

/// Applies one frame of input; alias of `process_events_with_maze_safe`
/// kept for callers of the plain interface.
pub fn process_events_with_maze(
    player: &mut Player,
    input: &InputState,
    maze: &Maze,
    block_size: usize,
)
    requires
        old(player).wf(),
        0 < block_size <= 0x10000,
    ensures
        final(player).wf(),
        final(player).a == heading_after(old(player).a as int, *input),
{
    process_events_with_maze_safe(player, input, maze, block_size);
}

/// Turns the heading by a mouse movement; alias kept for callers of the
/// plain interface.
pub fn process_mouse_input(player: &mut Player, mouse_delta: i64)
    requires
        old(player).wf(),
        -0x1000_0000 <= mouse_delta <= 0x1000_0000,
    ensures
        final(player).wf(),
        final(player).a == angle_mod(
            old(player).a - mouse_delta * (MOUSE_SENSITIVITY as int),
        ),
{
    process_mouse_input_safe(player, mouse_delta);
}

/// Applies one frame of input against the game state's maze; kept for
/// callers of the plain interface.
pub fn process_events(
    player: &mut Player,
    input: &InputState,
    game_state: &crate::game_state::GameState,
    block_size: usize,
)
    requires
        old(player).wf(),
        0 < block_size <= 0x10000,
    ensures
        final(player).wf(),
        final(player).a == heading_after(old(player).a as int, *input),
{
    process_events_with_maze_safe(player, input, &game_state.data.maze, block_size);
}

/// Whether the default player body may stand at a world point.
pub fn can_move_to_with_maze(x: i64, y: i64, maze: &Maze, block_size: usize) -> (r: bool)
    requires
        0 < block_size <= 0x10000,
        -0x4000_0000 <= x <= 0x4000_0000,
        -0x4000_0000 <= y <= 0x4000_0000,
    ensures
        r == can_stand(grid_view(*maze), x as int, y as int, DEFAULT_RADIUS as int, block_size as int),
{
    can_move_to_safe(x, y, maze, block_size, DEFAULT_RADIUS)
}

} // verus!
