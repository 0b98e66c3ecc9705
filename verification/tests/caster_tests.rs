use backrooms::angle::{atan2_angle, cos_angle, sin_angle, ANGLE_QUARTER, TRIG_ONE};
use backrooms::num::isqrt;
use backrooms::caster::{
    cast_ray_safe, cast_ray_textured, calculate_texture_coordinates, create_default_intersect,
    determine_wall_side, WallSide, MAX_DISTANCE, STEP_SIZE, TEX_ONE,
};
use backrooms::maze::MazeData;
use backrooms::player::Player;

fn maze_from(rows: &[&str]) -> MazeData {
    MazeData::new(rows.iter().map(|r| r.chars().collect()).collect())
}

#[test]
fn empty_maze_returns_default_sentinel() {
    let maze = maze_from(&[]);
    let player = Player::new_with_pos(100, 100, 0);
    let hit = cast_ray_textured(&maze, &player, 0, 100);
    assert_eq!(hit.distance, MAX_DISTANCE);
    assert_eq!(hit.impact, '#');
    assert_eq!(hit.texture_x, 0);
    assert_eq!(hit.texture_y, 0);
    assert!(matches!(hit.side, WallSide::North));
}

#[test]
fn zero_width_rows_return_default_sentinel() {
    let maze = maze_from(&["", ""]);
    let player = Player::new_with_pos(100, 100, 0);
    let hit = cast_ray_textured(&maze, &player, 0, 100);
    assert_eq!(hit.distance, MAX_DISTANCE);
    assert_eq!(hit.impact, '#');
}

#[test]
fn ray_through_walkable_key_cell_hits_far_wall() {
    // One row "# k #" with 100-unit cells; the player stands in the empty
    // cell at 150 world units and looks along +x. The key cell is walkable,
    // so the first hit is the wall in column four: the boundary at 400
    // world units (800 subunits), reached from 300 at march distance 501.
    let maze = maze_from(&["# k #"]);
    let player = Player::new_with_pos(300, 100, 0);
    let hit = cast_ray_textured(&maze, &player, 0, 100);
    assert_eq!(hit.impact, '#');
    assert_eq!(hit.distance, 501);
    // No hit was reported inside the key cell, which spans distances
    // 100..300 from the start.
    assert!(hit.distance > 300);
}

#[test]
fn wall_at_grid_distance_one_hits_near_cell_size() {
    // From the left edge of the empty cell in column three, the wall in
    // column four lies one grid cell ahead: the hit comes at 201 subunits,
    // within a step of the 100-unit cell size.
    let maze = maze_from(&["# k #"]);
    let player = Player::new_with_pos(600, 100, 0);
    let hit = cast_ray_textured(&maze, &player, 0, 100);
    assert_eq!(hit.impact, '#');
    assert!((hit.distance - 200).abs() <= STEP_SIZE);
}

#[test]
fn all_wall_maze_hits_on_first_step() {
    let maze = maze_from(&["##", "##"]);
    let player = Player::new_with_pos(100, 100, 0);
    let hit = cast_ray_textured(&maze, &player, 0, 100);
    assert_eq!(hit.distance, STEP_SIZE);
    assert_eq!(hit.impact, '#');
}

#[test]
fn enclosed_maze_every_ray_terminates_within_budget() {
    let maze = maze_from(&["#####", "#   #", "# # #", "#   #", "#####"]);
    let player = Player::new_with_pos(300, 300, 0);
    let mut angle: i64 = 0;
    while angle < 65536 {
        let hit = cast_ray_textured(&maze, &player, angle, 100);
        assert!(hit.distance > 0);
        assert!(hit.distance <= MAX_DISTANCE);
        assert!(hit.texture_x >= 0 && hit.texture_x <= TEX_ONE);
        assert!(hit.texture_y >= 0 && hit.texture_y <= TEX_ONE);
        angle += 1024;
    }
}

#[test]
fn texture_coordinates_within_unit_range_on_hits() {
    let maze = maze_from(&["#####", "#   #", "#####"]);
    for a in [0i64, 5000, 10000, 20000, 33000, 50000, 60000] {
        let player = Player::new_with_pos(300, 300, a);
        let hit = cast_ray_textured(&maze, &player, a, 100);
        assert!(hit.texture_x >= 0 && hit.texture_x <= TEX_ONE);
        assert!(hit.texture_y >= 0 && hit.texture_y <= TEX_ONE);
    }
}

#[test]
fn side_selection_prefers_smallest_margin() {
    // Near the west face the west margin is smallest.
    assert!(matches!(determine_wall_side(5, 512), WallSide::West));
    // Near the east face.
    assert!(matches!(determine_wall_side(TEX_ONE - 5, 512), WallSide::East));
    // Near the north face.
    assert!(matches!(determine_wall_side(512, 5), WallSide::North));
    // Near the south face.
    assert!(matches!(determine_wall_side(512, TEX_ONE - 5), WallSide::South));
}

#[test]
fn side_selection_tie_break_is_fixed() {
    // All four margins equal: the tie goes to the first of the fixed order
    // West, East, North, South.
    assert!(matches!(determine_wall_side(512, 512), WallSide::West));
    // West and North margins both zero: West wins the tie.
    assert!(matches!(determine_wall_side(0, 0), WallSide::West));
    // Equal West and North margins away from the edges: still West.
    assert!(matches!(determine_wall_side(200, 200), WallSide::West));
    // The same inputs always give the same side.
    for _ in 0..3 {
        assert!(matches!(determine_wall_side(512, 512), WallSide::West));
    }
}

#[test]
fn texture_axes_swap_for_east_west() {
    assert_eq!(calculate_texture_coordinates(WallSide::North, 3, 9), (3, 9));
    assert_eq!(calculate_texture_coordinates(WallSide::South, 3, 9), (3, 9));
    assert_eq!(calculate_texture_coordinates(WallSide::East, 3, 9), (9, 3));
    assert_eq!(calculate_texture_coordinates(WallSide::West, 3, 9), (9, 3));
}

#[test]
fn west_hit_carries_swapped_coordinates() {
    let maze = maze_from(&["# k #"]);
    let player = Player::new_with_pos(300, 100, 0);
    let hit = cast_ray_textured(&maze, &player, 0, 100);
    // The ray hits one subunit into the wall cell: offsets (1, 100) in the
    // 200-subunit cell normalize to (5, 512); the west margin wins and the
    // axes swap.
    assert!(matches!(hit.side, WallSide::West));
    assert_eq!(hit.texture_x, 512);
    assert_eq!(hit.texture_y, 5);
}

#[test]
fn cast_ray_safe_matches_textured_cast() {
    let maze = maze_from(&["# k #"]);
    let player = Player::new_with_pos(300, 100, 0);
    let a = cast_ray_textured(&maze, &player, 0, 100);
    let b = cast_ray_safe(&maze, &player, 0, 100);
    assert_eq!(a, b);
}

#[test]
fn negative_space_is_solid() {
    // Looking along -x from near the origin leaves known space at once.
    let maze = maze_from(&["   ", "   "]);
    let player = Player::new_with_pos(1, 100, 32768);
    let hit = cast_ray_textured(&maze, &player, 32768, 100);
    assert_eq!(hit.impact, '#');
    assert_eq!(hit.distance, STEP_SIZE);
}

#[test]
fn default_intersect_is_far_wall() {
    let d = create_default_intersect();
    assert_eq!(d.distance, MAX_DISTANCE);
    assert_eq!(d.impact, '#');
}

#[test]
fn trig_is_exact_at_quadrant_points() {
    assert_eq!(sin_angle(0), 0);
    assert_eq!(sin_angle(ANGLE_QUARTER), TRIG_ONE);
    assert_eq!(sin_angle(32768), 0);
    assert_eq!(sin_angle(49152), -TRIG_ONE);
    assert_eq!(cos_angle(0), TRIG_ONE);
    assert_eq!(cos_angle(ANGLE_QUARTER), 0);
    assert_eq!(cos_angle(32768), -TRIG_ONE);
}

#[test]
fn atan2_is_exact_on_axes() {
    assert_eq!(atan2_angle(0, 100), 0);
    assert_eq!(atan2_angle(100, 0), 16384);
    assert_eq!(atan2_angle(0, -100), 32768);
    assert_eq!(atan2_angle(-100, 0), 49152);
    assert_eq!(atan2_angle(100, 100), 8192);
    assert_eq!(atan2_angle(0, 0), 0);
}

#[test]
fn integer_square_root_brackets() {
    assert_eq!(isqrt(0), 0);
    assert_eq!(isqrt(1), 1);
    assert_eq!(isqrt(3), 1);
    assert_eq!(isqrt(4), 2);
    assert_eq!(isqrt(999_999), 999);
    assert_eq!(isqrt(1_000_000_000_000), 1_000_000);
}
