//! The grid maze store: an ordered sequence of character rows with
//! bounds-safe cell lookup. Out-of-range or absent cells read as the wall
//! symbol `'#'` (unknown space is solid), so no caller can ever observe an
//! invalid cell.

use vstd::prelude::*;

use crate::cells::{is_walkable_sym, is_wall_sym};
use crate::SUB;

verus! {

/// A maze grid as stored: one `Vec<char>` per row.
pub type Maze = Vec<Vec<char>>;

/// The mathematical view of a grid: a sequence of rows of cells.
pub open spec fn grid_view(grid: Maze) -> Seq<Seq<char>> {
    grid@.map_values(|r: Vec<char>| r@)
}

/// Nominal grid width: the length of the first row (0 for an empty grid).
pub open spec fn grid_width(g: Seq<Seq<char>>) -> int {
    if g.len() > 0 {
        g[0].len() as int
    } else {
        0
    }
}

/// The cell at column `x`, row `y`; any position outside the grid, beyond
/// the nominal width, or past the end of a ragged row reads as `'#'`.
pub open spec fn cell_at(g: Seq<Seq<char>>, x: int, y: int) -> char {
    if 0 <= y < g.len() && 0 <= x < grid_width(g) {
        if x < g[y].len() {
            g[y][x]
        } else {
            '#'
        }
    } else {
        '#'
    }
}

/// The grid with the cell at (`x`, `y`) replaced by `c` when that position
/// is inside the stored rows, else unchanged.
pub open spec fn grid_set(g: Seq<Seq<char>>, x: int, y: int, c: char) -> Seq<Seq<char>> {
    if 0 <= y < g.len() && 0 <= x < grid_width(g) && x < g[y].len() {
        g.update(y, g[y].update(x, c))
    } else {
        g
    }
}

/// The maze grid together with its cached dimensions.
pub struct MazeData {
    pub grid: Maze,
    pub width: usize,
    pub height: usize,
}

impl MazeData {
    /// Well-formedness: the cached dimensions agree with the stored rows.
    pub open spec fn wf(self) -> bool {
        &&& self.height == self.grid@.len()
        &&& self.width == grid_width(grid_view(self.grid))
    }

    /// The grid as a sequence of rows of cells.
    pub open spec fn view_grid(self) -> Seq<Seq<char>> {
        grid_view(self.grid)
    }

    /// Wraps a grid, caching its height and nominal width.
    pub fn new(grid: Maze) -> (r: MazeData)
        ensures
            r.wf(),
            r.view_grid() == grid_view(grid),
    {
        let height = grid.len();
        let width = if height > 0 {
            grid[0].len()
        } else {
            0
        };
        MazeData { grid, width, height }
    }

    /// The cell at grid position (`x`, `y`), `'#'` when out of range.
    pub fn get_cell(&self, x: usize, y: usize) -> (r: char)
        requires
            self.wf(),
        ensures
            r == cell_at(self.view_grid(), x as int, y as int),
    {
        if y < self.height && x < self.width {
            let row = &self.grid[y];
            if x < row.len() {
                row[x]
            } else {
                '#'
            }
        } else {
            '#'
        }
    }

    /// The cell under the world point (`x`, `y`) in subunits, `'#'` for
    /// negative coordinates or positions outside the grid.
    pub fn get_cell_safe(&self, x: i64, y: i64, block_size: usize) -> (r: char)
        requires
            self.wf(),
            0 < block_size <= 0x10000,
        ensures
            r == (if x < 0 || y < 0 {
                '#'
            } else {
                cell_at(
                    self.view_grid(),
                    x as int / (block_size * SUB) as int,
                    y as int / (block_size * SUB) as int,
                )
            }),
    {
        if x < 0 || y < 0 {
            return '#';
        }
        let cell = (block_size as u64) * (SUB as u64);
        let grid_x = (x as u64) / cell;
        let grid_y = (y as u64) / cell;
        if grid_x < self.width as u64 && grid_y < self.height as u64 {
            self.get_cell(grid_x as usize, grid_y as usize)
        } else {
            '#'
        }
    }

    /// Whether the cell at (`x`, `y`) is a wall (out-of-range cells are).
    pub fn is_wall(&self, x: usize, y: usize) -> (r: bool)
        requires
            self.wf(),
        ensures
            r == is_wall_sym(cell_at(self.view_grid(), x as int, y as int)),
    {
        let cell = self.get_cell(x, y);
        crate::cells::is_wall_cell(cell)
    }

    /// Whether the cell at (`x`, `y`) is walkable (out-of-range cells are not).
    pub fn is_walkable(&self, x: usize, y: usize) -> (r: bool)
        requires
            self.wf(),
        ensures
            r == is_walkable_sym(cell_at(self.view_grid(), x as int, y as int)),
    {
        let cell = self.get_cell(x, y);
        cell == ' ' || cell == 'k' || cell == 't' || cell == 'l' || cell == 'c' || cell == 'e'
    }

    /// Whether the world point (`x`, `y`) in subunits lies on a walkable cell.
    pub fn can_move_to(&self, world_x: i64, world_y: i64, block_size: usize) -> (r: bool)
        requires
            self.wf(),
            0 < block_size <= 0x10000,
        ensures
            r == (world_x >= 0 && world_y >= 0 && is_walkable_sym(
                cell_at(
                    self.view_grid(),
                    world_x as int / (block_size * SUB) as int,
                    world_y as int / (block_size * SUB) as int,
                ),
            )),
    {
        if world_x < 0 || world_y < 0 {
            return false;
        }
        let cell = self.get_cell_safe(world_x, world_y, block_size);
        cell == ' ' || cell == 'k' || cell == 't' || cell == 'l' || cell == 'c' || cell == 'e'
    }

    /// Overwrites the cell at (`x`, `y`) when it lies inside the grid.
    pub fn set_cell(&mut self, x: usize, y: usize, cell: char)
        requires
            old(self).wf(),
        ensures
            final(self).wf(),
            final(self).view_grid() == grid_set(old(self).view_grid(), x as int, y as int, cell),
            final(self).width == old(self).width,
            final(self).height == old(self).height,
    {
        if y < self.height && x < self.width {
            let row_len = self.grid[y].len();
            if x < row_len {
                let ghost g0 = self.view_grid();
                let row: &mut Vec<char> = &mut self.grid[y];
                row.set(x, cell);
                proof {
                    assert(self.view_grid() =~= grid_set(g0, x as int, y as int, cell));
                    assert(grid_width(self.view_grid()) == grid_width(g0));
                }
            }
        }
    }

    /// The stored rows, for callers that walk the grid themselves.
    pub fn iter(&self) -> (r: &Vec<Vec<char>>)
        ensures
            grid_view(*r) == self.view_grid(),
    {
        &self.grid
    }

    /// The row at `index`, if it exists.
    pub fn get(&self, index: usize) -> (r: Option<&Vec<char>>)
        ensures
            match r {
                Some(row) => index < self.grid@.len() && row@ == self.view_grid()[index as int],
                None => index >= self.grid@.len(),
            },
    {
        if index < self.grid.len() {
            Some(&self.grid[index])
        } else {
            None
        }
    }

    /// The number of rows.
    pub fn len(&self) -> (r: usize)
        requires
            self.wf(),
        ensures
            r == self.view_grid().len(),
    {
        self.height
    }

    /// Whether the maze has no rows at all.
    pub fn is_empty(&self) -> (r: bool)
        requires
            self.wf(),
        ensures
            r == (self.view_grid().len() == 0),
    {
        self.height == 0
    }
}

/// The grid with every row right-padded with spaces to the longest row's
/// length, so that all rows have identical length.
pub open spec fn padded_rows(g: Seq<Seq<char>>, w: int) -> Seq<Seq<char>> {
    g.map_values(|r: Seq<char>| r + Seq::new((if r.len() <= w { w - r.len() } else { 0 }) as nat, |i: int| ' '))
}

/// The length of the longest row of `g` (0 when there are none).
pub open spec fn max_row_len(g: Seq<Seq<char>>) -> int
    decreases g.len(),
{
    if g.len() == 0 {
        0
    } else {
        let rest = max_row_len(g.drop_last());
        if g.last().len() as int > rest {
            g.last().len() as int
        } else {
            rest
        }
    }
}

/// Right-pads every row of `grid` with spaces to the longest row's length
/// and wraps the result, so the loaded maze satisfies the equal-width
/// invariant of the data model.
pub fn load_maze_data(grid: Maze) -> (r: MazeData)
    requires
        forall|i: int| 0 <= i < grid@.len() ==> #[trigger] grid@[i]@.len() <= 0x1000000,
    ensures
        r.wf(),
        r.view_grid() == padded_rows(grid_view(grid), max_row_len(grid_view(grid))),
        r.view_grid().len() == grid@.len(),
        forall|i: int| 0 <= i < r.view_grid().len() ==> #[trigger] r.view_grid()[i].len()
            == max_row_len(grid_view(grid)),
{
    let ghost orig = grid_view(grid);
    let mut grid = grid;
    let mut max_width: usize = 0;
    let mut i: usize = 0;
    while i < grid.len()
        invariant
            grid_view(grid) == orig,
            0 <= i <= grid@.len(),
            grid@.len() == orig.len(),
            forall|j: int| 0 <= j < orig.len() ==> #[trigger] orig[j].len() <= 0x1000000,
            max_width == max_row_len(orig.take(i as int)),
            max_width <= 0x1000000,
        decreases grid@.len() - i,
    {
        proof {
            assert(orig.take(i + 1).drop_last() =~= orig.take(i as int));
            assert(orig[i as int] == grid@[i as int]@);
            assert(orig.take(i + 1).last() == orig[i as int]);
        }
        let len_i = grid[i].len();
        if len_i > max_width {
            max_width = len_i;
        }
        i = i + 1;
    }
    proof {
        assert(orig.take(orig.len() as int) =~= orig);
    }
    let mut i: usize = 0;
    while i < grid.len()
        invariant
            grid@.len() == orig.len(),
            max_width == max_row_len(orig),
            max_width <= 0x1000000,
            0 <= i <= grid@.len(),
            forall|j: int| 0 <= j < orig.len() ==> #[trigger] orig[j].len() <= 0x1000000,
            forall|j: int| i <= j < orig.len() ==> #[trigger] grid@[j]@ == orig[j],
            forall|j: int| 0 <= j < i ==> #[trigger] grid@[j]@ == padded_rows(
                orig,
                max_width as int,
            )[j],
        decreases grid@.len() - i,
    {
        proof {
            lemma_row_le_max(orig, i as int);
        }
        let ghost row0 = orig[i as int];
        let mut new_row: Vec<char> = Vec::new();
        let row_len = grid[i].len();
        let mut k: usize = 0;
        while k < row_len
            invariant
                i < grid@.len(),
                grid@[i as int]@ == row0,
                row_len == row0.len(),
                0 <= k <= row_len,
                new_row@ == row0.take(k as int),
            decreases row_len - k,
        {
            new_row.push(grid[i][k]);
            proof {
                assert(new_row@ =~= row0.take(k + 1));
            }
            k = k + 1;
        }
        proof {
            assert(new_row@ =~= row0);
        }
        while new_row.len() < max_width
            invariant
                row0.len() <= new_row@.len() <= max_width || new_row@.len() == row0.len(),
                row0.len() <= new_row@.len(),
                new_row@ == row0 + Seq::new((new_row@.len() - row0.len()) as nat, |t: int| ' '),
            decreases max_width - new_row@.len(),
        {
            new_row.push(' ');
            proof {
                assert(new_row@ =~= row0 + Seq::new((new_row@.len() - row0.len()) as nat, |t: int| ' '));
            }
        }
        proof {
            assert(new_row@ =~= padded_rows(orig, max_width as int)[i as int]);
        }
        grid.set(i, new_row);
        i = i + 1;
    }
    proof {
        assert(grid_view(grid) =~= padded_rows(orig, max_width as int));
        assert forall|j: int| 0 <= j < orig.len() implies #[trigger] orig[j].len()
            <= max_width as int by {
            lemma_row_le_max(orig, j);
        }
        lemma_padded_width(orig, max_width as int);
        assert forall|j: int| 0 <= j < grid_view(grid).len() implies #[trigger] grid_view(
            grid,
        )[j].len() == max_width as int by {
            assert(grid_view(grid)[j] == grid@[j]@);
        }
    }
    MazeData::new(grid)
}

/// Every row of `g` is at most the longest row's length.
proof fn lemma_row_le_max(g: Seq<Seq<char>>, i: int)
    requires
        0 <= i < g.len(),
    ensures
        g[i].len() <= max_row_len(g),
    decreases g.len(),
{
    if i == g.len() - 1 {
    } else {
        lemma_row_le_max(g.drop_last(), i);
    }
}

/// Padding to width `w` at least the longest row gives rows of length `w`.
proof fn lemma_padded_width(g: Seq<Seq<char>>, w: int)
    requires
        forall|i: int| 0 <= i < g.len() ==> #[trigger] g[i].len() <= w,
    ensures
        forall|i: int| 0 <= i < g.len() ==> #[trigger] padded_rows(g, w)[i].len() == w,
{
}

/// The cell under a world point of a bare grid; builds a transient store,
/// kept for callers of the plain interface.
pub fn get_cell_safe(x: i64, y: i64, maze: &Maze, block_size: usize) -> (r: char)
    requires
        0 < block_size <= 0x10000,
    ensures
        r == (if x < 0 || y < 0 {
            '#'
        } else {
            cell_at(
                grid_view(*maze),
                x as int / (block_size * SUB) as int,
                y as int / (block_size * SUB) as int,
            )
        }),
{
    let maze_data = MazeData::new(maze.clone());
    proof {
        assert(grid_view(*maze) =~= maze_data.view_grid());
    }
    maze_data.get_cell_safe(x, y, block_size)
}

/// Whether a world point of a bare grid is walkable; kept for callers of
/// the plain interface.
pub fn can_move_to_safe(x: i64, y: i64, maze: &Maze, block_size: usize) -> (r: bool)
    requires
        0 < block_size <= 0x10000,
    ensures
        r == (x >= 0 && y >= 0 && is_walkable_sym(
            cell_at(
                grid_view(*maze),
                x as int / (block_size * SUB) as int,
                y as int / (block_size * SUB) as int,
            ),
        )),
{
    let maze_data = MazeData::new(maze.clone());
    proof {
        assert(grid_view(*maze) =~= maze_data.view_grid());
    }
    maze_data.can_move_to(x, y, block_size)
}

/// The built-in level used when no maze source can be read: a fully
/// enclosed grid of uniform width holding a key, an extra life and an
/// exit.
pub fn create_default_maze() -> (r: Maze)
    ensures
        grid_view(r).len() == 16,
        grid_width(grid_view(r)) == 17,
        forall|i: int| 0 <= i < grid_view(r).len() ==> (#[trigger] grid_view(r)[i]).len() == 17,
{
    let mut rows: Maze = Vec::new();
    rows.push(row_from_str("#################"));
    rows.push(row_from_str("#              ##"));
    rows.push(row_from_str("# ############ ##"));
    rows.push(row_from_str("#              ##"));
    rows.push(row_from_str("# ####### # # ###"));
    rows.push(row_from_str("# #     # # #   #"));
    rows.push(row_from_str("# # ### # # ### #"));
    rows.push(row_from_str("# #   # # #   # #"));
    rows.push(row_from_str("# ### # # ### # #"));
    rows.push(row_from_str("# #k  # #   # # #"));
    rows.push(row_from_str("# ##### ### # # #"));
    rows.push(row_from_str("#           # # #"));
    rows.push(row_from_str("############# # #"));
    rows.push(row_from_str("#             # #"));
    rows.push(row_from_str("#           l  ##"));
    rows.push(row_from_str("##############e##"));
    proof {
        reveal_strlit("#################");
        reveal_strlit("#              ##");
        reveal_strlit("# ############ ##");
        reveal_strlit("# ####### # # ###");
        reveal_strlit("# #     # # #   #");
        reveal_strlit("# # ### # # ### #");
        reveal_strlit("# #   # # #   # #");
        reveal_strlit("# ### # # ### # #");
        reveal_strlit("# #k  # #   # # #");
        reveal_strlit("# ##### ### # # #");
        reveal_strlit("#           # # #");
        reveal_strlit("############# # #");
        reveal_strlit("#             # #");
        reveal_strlit("#           l  ##");
        reveal_strlit("##############e##");
        assert forall|i: int| 0 <= i < grid_view(rows).len() implies (#[trigger] grid_view(
            rows,
        )[i]).len() == 17 by {
            assert(grid_view(rows)[i] == rows@[i]@);
        }
    }
    rows
}

/// One maze row from the characters of a string slice.
pub(crate) fn row_from_str(s: &str) -> (r: Vec<char>)
    ensures
        r@ == s@,
{
    let n = s.unicode_len();
    let mut row: Vec<char> = Vec::new();
    let mut i: usize = 0;
    while i < n
        invariant
            n == s@.len(),
            0 <= i <= n,
            row@ == s@.take(i as int),
        decreases n - i,
    {
        row.push(s.get_char(i));
        proof {
            assert(row@ =~= s@.take(i + 1));
        }
        i = i + 1;
    }
    proof {
        assert(row@ =~= s@);
    }
    row
}

} // verus!
