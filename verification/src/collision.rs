//! The collision system: bounds-safe world-to-grid conversion and
//! walkability tests, including the nine-point radius probe used for the
//! player's body. Anything outside the grid is solid.

use vstd::prelude::*;

use crate::cells::{is_walkable_sym};
use crate::maze::{cell_at, grid_view, grid_width, Maze};
use crate::SUB;

verus! {

/// The grid cell of a nonnegative world point, at the given cell size in
/// world units.
pub open spec fn world_to_grid_spec(w: int, block: int) -> int {
    w / (block * (SUB as int))
}

/// Whether the world point lies on a walkable cell of the grid: inside
/// known space, within bounds, and on a walkable symbol.
pub open spec fn point_walkable(g: Seq<Seq<char>>, x: int, y: int, block: int) -> bool {
    &&& x >= 0
    &&& y >= 0
    &&& world_to_grid_spec(x, block) < grid_width(g)
    &&& world_to_grid_spec(y, block) < g.len()
    &&& is_walkable_sym(cell_at(g, world_to_grid_spec(x, block), world_to_grid_spec(y, block)))
}

/// The nine probe points of the player's body: center, the four cardinal
/// offsets at the full radius and the four diagonals at seven tenths.
pub open spec fn probe_points(x: int, y: int, radius: int) -> Seq<(int, int)> {
    let d = radius * 7 / 10;
    seq![
        (x, y),
        (x + radius, y),
        (x - radius, y),
        (x, y + radius),
        (x, y - radius),
        (x + d, y + d),
        (x - d, y - d),
        (x + d, y - d),
        (x - d, y + d),
    ]
}

/// Whether the whole player body fits on walkable cells.
pub open spec fn body_fits(g: Seq<Seq<char>>, x: int, y: int, radius: int, block: int) -> bool {
    forall|k: int|
        0 <= k < probe_points(x, y, radius).len() ==> point_walkable(
            g,
            (#[trigger] probe_points(x, y, radius)[k]).0,
            probe_points(x, y, radius)[k].1,
            block,
        )
}

/// The collision system: a grid with its cell size.
pub struct CollisionSystem {
    pub maze: Maze,
    pub block_size: usize,
}

impl CollisionSystem {
    /// Well-formedness: a usable cell size.
    pub open spec fn wf(self) -> bool {
        0 < self.block_size <= 0x10000
    }

    /// The grid as a sequence of rows.
    pub open spec fn view_grid(self) -> Seq<Seq<char>> {
        grid_view(self.maze)
    }

    /// Wraps a grid with its cell size.
    pub fn new(maze: Maze, block_size: usize) -> (r: CollisionSystem)
        requires
            0 < block_size <= 0x10000,
        ensures
            r.wf(),
            r.view_grid() == grid_view(maze),
            r.block_size == block_size,
    {
        CollisionSystem { maze, block_size }
    }

    /// Whether a grid position lies inside the grid bounds.
    pub fn is_within_bounds(&self, grid_x: usize, grid_y: usize) -> (r: bool)
        ensures
            r == (grid_y < self.view_grid().len() && grid_x < grid_width(self.view_grid())),
    {
        grid_y < self.maze.len() && (self.maze.len() > 0 && grid_x < self.maze[0].len())
    }

    /// The cell under a world point, `'#'` outside known space.
    pub fn get_cell(&self, x: i64, y: i64) -> (r: char)
        requires
            self.wf(),
        ensures
            r == (if x >= 0 && y >= 0 && world_to_grid_spec(x as int, self.block_size as int)
                < grid_width(self.view_grid()) && world_to_grid_spec(
                y as int,
                self.block_size as int,
            ) < self.view_grid().len() {
                cell_at(
                    self.view_grid(),
                    world_to_grid_spec(x as int, self.block_size as int),
                    world_to_grid_spec(y as int, self.block_size as int),
                )
            } else {
                '#'
            }),
    {
        if x < 0 || y < 0 {
            return '#';
        }
        let bs = self.block_size;
        proof {
            assert(SUB == 2);
            assert(bs as u64 <= 0x10000);
            assert(2 <= (bs as u64) * (SUB as u64) <= 0x20000) by (nonlinear_arith)
                requires
                    1 <= bs as u64 <= 0x10000,
                    SUB == 2,
            ;
        }
        let cell = (bs as u64) * (SUB as u64);
        let grid_x = (x as u64) / cell;
        let grid_y = (y as u64) / cell;
        let height = self.maze.len() as u64;
        let width = if self.maze.len() > 0 {
            self.maze[0].len() as u64
        } else {
            0
        };
        if grid_x < width && grid_y < height {
            let gx = grid_x as usize;
            let gy = grid_y as usize;
            let row = &self.maze[gy];
            if gx < row.len() {
                row[gx]
            } else {
                '#'
            }
        } else {
            '#'
        }
    }

    /// Whether the player can stand at a world point: it must lie on a
    /// walkable cell inside the grid.
    pub fn can_move_to(&self, x: i64, y: i64) -> (r: bool)
        requires
            self.wf(),
        ensures
            r == point_walkable(self.view_grid(), x as int, y as int, self.block_size as int),
    {
        if x < 0 || y < 0 {
            return false;
        }
        let c = self.get_cell(x, y);
        let bs = self.block_size;
        proof {
            assert(SUB == 2);
            assert(bs as u64 <= 0x10000);
            assert(2 <= (bs as u64) * (SUB as u64) <= 0x20000) by (nonlinear_arith)
                requires
                    1 <= bs as u64 <= 0x10000,
                    SUB == 2,
            ;
        }
        let cell = (bs as u64) * (SUB as u64);
        let grid_x = (x as u64) / cell;
        let grid_y = (y as u64) / cell;
        let height = self.maze.len() as u64;
        let width = if self.maze.len() > 0 {
            self.maze[0].len() as u64
        } else {
            0
        };
        if grid_x >= width || grid_y >= height {
            return false;
        }
        c == ' ' || c == 'k' || c == 't' || c == 'l' || c == 'c' || c == 'e'
    }

    /// Whether the whole player body, probed at nine points around the
    /// center, fits on walkable cells.
    pub fn can_move_to_with_radius(&self, center_x: i64, center_y: i64, radius: i64) -> (r: bool)
        requires
            self.wf(),
            -0x4000_0000 <= center_x <= 0x4000_0000,
            -0x4000_0000 <= center_y <= 0x4000_0000,
            0 <= radius <= 0x10000,
        ensures
            r == body_fits(
                self.view_grid(),
                center_x as int,
                center_y as int,
                radius as int,
                self.block_size as int,
            ),
    {
        let d = radius * 7 / 10;
        proof {
            vstd::arithmetic::div_mod::lemma_div_pos_is_pos(radius as int * 7, 10);
            vstd::arithmetic::div_mod::lemma_div_is_ordered(radius as int * 7, radius as int * 10, 10);
            assert((radius as int * 10) / 10 == radius as int) by (nonlinear_arith);
        }
        let ghost pts = probe_points(center_x as int, center_y as int, radius as int);
        let ok = self.can_move_to(center_x, center_y) && self.can_move_to(center_x + radius, center_y)
            && self.can_move_to(center_x - radius, center_y) && self.can_move_to(
            center_x,
            center_y + radius,
        ) && self.can_move_to(center_x, center_y - radius) && self.can_move_to(
            center_x + d,
            center_y + d,
        ) && self.can_move_to(center_x - d, center_y - d) && self.can_move_to(
            center_x + d,
            center_y - d,
        ) && self.can_move_to(center_x - d, center_y + d);
        proof {
            if ok {
                assert forall|k: int| 0 <= k < pts.len() implies point_walkable(
                    self.view_grid(),
                    (#[trigger] pts[k]).0,
                    pts[k].1,
                    self.block_size as int,
                ) by {
                    if k == 0 {
                    } else if k == 1 {
                    } else if k == 2 {
                    } else if k == 3 {
                    } else if k == 4 {
                    } else if k == 5 {
                    } else if k == 6 {
                    } else if k == 7 {
                    } else {
                        assert(k == 8);
                    }
                }
            } else {
                if body_fits(
                    self.view_grid(),
                    center_x as int,
                    center_y as int,
                    radius as int,
                    self.block_size as int,
                ) {
                    let b = self.block_size as int;
                    let g = self.view_grid();
                    assert(point_walkable(g, pts[0].0, pts[0].1, b));
                    assert(point_walkable(g, pts[1].0, pts[1].1, b));
                    assert(point_walkable(g, pts[2].0, pts[2].1, b));
                    assert(point_walkable(g, pts[3].0, pts[3].1, b));
                    assert(point_walkable(g, pts[4].0, pts[4].1, b));
                    assert(point_walkable(g, pts[5].0, pts[5].1, b));
                    assert(point_walkable(g, pts[6].0, pts[6].1, b));
                    assert(point_walkable(g, pts[7].0, pts[7].1, b));
                    assert(point_walkable(g, pts[8].0, pts[8].1, b));
                }
            }
        }
        ok
    }

    /// Replaces the grid, for dynamic maze changes.
    pub fn update_maze(&mut self, new_maze: Maze)
        requires
            old(self).wf(),
        ensures
            final(self).wf(),
            final(self).view_grid() == grid_view(new_maze),
            final(self).block_size == old(self).block_size,
    {
        self.maze = new_maze;
    }

    /// The grid dimensions as (width, height).
    pub fn get_dimensions(&self) -> (r: (usize, usize))
        ensures
            r.0 == grid_width(self.view_grid()),
            r.1 == self.view_grid().len(),
    {
        let height = self.maze.len();
        let width = if height > 0 {
            self.maze[0].len()
        } else {
            0
        };
        (width, height)
    }

    /// The cell under a world point for ray probing, `'#'` outside known
    /// space.
    pub fn safe_raycast_check(&self, x: i64, y: i64) -> (r: char)
        requires
            self.wf(),
        ensures
            r == (if x >= 0 && y >= 0 && world_to_grid_spec(x as int, self.block_size as int)
                < grid_width(self.view_grid()) && world_to_grid_spec(
                y as int,
                self.block_size as int,
            ) < self.view_grid().len() {
                cell_at(
                    self.view_grid(),
                    world_to_grid_spec(x as int, self.block_size as int),
                    world_to_grid_spec(y as int, self.block_size as int),
                )
            } else {
                '#'
            }),
    {
        self.get_cell(x, y)
    }
}

/// Whether the player can stand at a world point of a bare grid; builds a
/// transient collision system, kept for callers of the plain interface.
pub fn can_move_to_with_maze_safe(x: i64, y: i64, maze: &Maze, block_size: usize) -> (r: bool)
    requires
        0 < block_size <= 0x10000,
    ensures
        r == point_walkable(grid_view(*maze), x as int, y as int, block_size as int),
{
    let collision_system = CollisionSystem::new(maze.clone(), block_size);
    proof {
        assert(grid_view(*maze) =~= collision_system.view_grid());
    }
    collision_system.can_move_to(x, y)
}

} // verus!
