//! The fixed cell-symbol alphabet of the maze grid and its partition into
//! wall, walkable and interactive symbols. Every component consults this
//! table instead of scattering character literals.

use vstd::prelude::*;

verus! {

/// Wall symbols: solid cells that stop rays and movement.
pub open spec fn is_wall_sym(c: char) -> bool {
    c == '#' || c == '+' || c == '-' || c == '|' || c == 'r' || c == 'b' || c == 'g'
}

/// Walkable symbols: empty space and the interactive objects standing in it.
pub open spec fn is_walkable_sym(c: char) -> bool {
    c == ' ' || c == 'k' || c == 't' || c == 'l' || c == 'c' || c == 'e'
}

/// Interactive symbols: cells that spawn a sprite and react to the player.
pub open spec fn is_interactive_sym(c: char) -> bool {
    c == 'k' || c == 'c' || c == 'e' || c == 'l' || c == 't'
}

/// Whether `cell` is one of the wall symbols.
pub fn is_wall_cell(cell: char) -> (r: bool)
    ensures
        r == is_wall_sym(cell),
{
    cell == '#' || cell == '+' || cell == '-' || cell == '|' || cell == 'r' || cell == 'b'
        || cell == 'g'
}

/// Whether `cell` is one of the simple object symbols drawn by the
/// flat-shape object renderer (the exit is drawn as a wall, not an object).
pub open spec fn is_object_sym(c: char) -> bool {
    c == 'k' || c == 'c' || c == 'l' || c == 't'
}

/// Whether `cell` is one of the simple object symbols.
pub fn is_object_cell(cell: char) -> (r: bool)
    ensures
        r == is_object_sym(cell),
{
    cell == 'k' || cell == 'c' || cell == 'l' || cell == 't'
}

/// Whether `cell` is one of the interactive symbols.
pub fn is_interactive_cell(cell: char) -> (r: bool)
    ensures
        r == is_interactive_sym(cell),
{
    cell == 'k' || cell == 'c' || cell == 'e' || cell == 'l' || cell == 't'
}

} // verus!
