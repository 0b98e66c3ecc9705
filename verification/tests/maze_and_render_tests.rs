use backrooms::caster::WallSide;
use backrooms::cells::{is_interactive_cell, is_object_cell, is_wall_cell};
use backrooms::framebuffer::{Color, Framebuffer};
use backrooms::maze::{can_move_to_safe, create_default_maze, get_cell_safe, load_maze_data, MazeData};
use backrooms::player::Player;
use backrooms::render::{
    apply_lighting, calculate_distance_attenuation, calculate_side_attenuation,
    render_world_textured, render_world_safe,
};
use backrooms::texture_manager::{RealTextureInfo, TextureManager};

fn maze_from(rows: &[&str]) -> MazeData {
    MazeData::new(rows.iter().map(|r| r.chars().collect()).collect())
}

#[test]
fn cell_lookup_is_bounds_safe() {
    let maze = maze_from(&["#k", " e"]);
    assert_eq!(maze.get_cell(0, 0), '#');
    assert_eq!(maze.get_cell(1, 0), 'k');
    assert_eq!(maze.get_cell(0, 1), ' ');
    assert_eq!(maze.get_cell(1, 1), 'e');
    // Outside the grid everything is a wall.
    assert_eq!(maze.get_cell(2, 0), '#');
    assert_eq!(maze.get_cell(0, 2), '#');
    assert_eq!(maze.get_cell(1000, 1000), '#');
}

#[test]
fn ragged_rows_read_as_wall_past_their_end() {
    let maze = maze_from(&["###", "#"]);
    assert_eq!(maze.get_cell(1, 1), '#');
}

#[test]
fn world_lookup_rejects_negative_space() {
    let maze = maze_from(&["  ", "  "]);
    assert_eq!(maze.get_cell_safe(-1, 100, 100), '#');
    assert_eq!(maze.get_cell_safe(100, -1, 100), '#');
    assert_eq!(maze.get_cell_safe(100, 100, 100), ' ');
    assert!(!maze.can_move_to(-5, 100, 100));
    assert!(maze.can_move_to(100, 100, 100));
    // The plain-interface lookups agree with the store's.
    let bare: Vec<Vec<char>> = vec![vec![' ', 'k'], vec!['#', ' ']];
    assert_eq!(get_cell_safe(300, 100, &bare, 100), 'k');
    assert_eq!(get_cell_safe(-1, 100, &bare, 100), '#');
    assert!(can_move_to_safe(300, 100, &bare, 100));
    assert!(!can_move_to_safe(100, 300, &bare, 100));
    assert_eq!(backrooms::player::get_cell_safe(300, 100, &bare, 100), 'k');
    assert_eq!(backrooms::player::get_cell_safe(900, 100, &bare, 100), '#');
}

#[test]
fn wall_and_walkable_partition() {
    let maze = maze_from(&["#+-|rbg", " ktlce "]);
    for x in 0..7 {
        assert!(maze.is_wall(x, 0), "column {} should be a wall", x);
    }
    for x in 0..6 {
        assert!(maze.is_walkable(x, 1), "column {} should be walkable", x);
    }
    for c in ['k', 'c', 'e', 'l', 't'] {
        assert!(is_interactive_cell(c));
        assert!(!is_wall_cell(c));
    }
    assert!(!is_interactive_cell(' '));
    assert!(!is_interactive_cell('#'));
    // The flat object renderer treats the exit as a wall, not an object.
    assert!(!is_object_cell('e'));
    assert!(is_object_cell('k'));
    // The texture provider draws the exit as a glowing wall.
    let tm = TextureManager::new();
    assert!(tm.is_wall_cell('e'));
    assert!(tm.is_wall_cell('#'));
    assert!(!tm.is_wall_cell('k'));
    assert_eq!(tm.get_texture_size(), 64);
}

#[test]
fn set_cell_consumes_an_interactive_cell() {
    let mut maze = maze_from(&["#k#"]);
    maze.set_cell(1, 0, ' ');
    assert_eq!(maze.get_cell(1, 0), ' ');
    // Out-of-range writes change nothing.
    maze.set_cell(9, 9, 'x');
    assert_eq!(maze.get_cell(0, 0), '#');
}

#[test]
fn loading_pads_rows_to_the_longest() {
    let rows: Vec<Vec<char>> = vec!["#".chars().collect(), "#ab".chars().collect()];
    let maze = load_maze_data(rows);
    assert_eq!(maze.len(), 2);
    assert_eq!(maze.width, 3);
    assert_eq!(maze.get_cell(1, 0), ' ');
    assert_eq!(maze.get_cell(2, 0), ' ');
    assert_eq!(maze.get_cell(2, 1), 'b');
}

#[test]
fn default_maze_is_enclosed_and_stocked() {
    let grid = create_default_maze();
    // Every row has the same length, as the data model demands.
    for row in &grid {
        assert_eq!(row.len(), 17);
    }
    let maze = MazeData::new(grid);
    assert_eq!(maze.len(), 16);
    assert_eq!(maze.width, 17);
    // The whole border is wall.
    for x in 0..17 {
        assert!(maze.is_wall(x, 0));
        assert!(maze.is_wall(x, 15) || maze.get_cell(x, 15) == 'e');
    }
    for y in 0..16 {
        assert!(maze.is_wall(0, y));
        assert!(maze.is_wall(16, y));
    }
    // It holds a key, a life and an exit.
    assert_eq!(maze.get_cell(3, 9), 'k');
    assert_eq!(maze.get_cell(12, 14), 'l');
    assert_eq!(maze.get_cell(14, 15), 'e');
}

#[test]
fn brightness_is_monotone_in_distance() {
    // Of two intersections within the attenuation range the nearer is at
    // least as bright.
    let mut prev = calculate_distance_attenuation(0);
    assert_eq!(prev, 1000);
    let mut d: i64 = 0;
    while d <= 1200 {
        let b = calculate_distance_attenuation(d);
        assert!(b <= prev);
        prev = b;
        d += 60;
    }
    assert_eq!(calculate_distance_attenuation(600), 650);
    assert_eq!(calculate_distance_attenuation(1200), 440);
    // Past the cap brightness stays at its floor value.
    assert_eq!(calculate_distance_attenuation(2000), 440);
}

#[test]
fn side_attenuation_darkens_east_west() {
    assert_eq!(calculate_side_attenuation(WallSide::North), 1000);
    assert_eq!(calculate_side_attenuation(WallSide::South), 1000);
    assert_eq!(calculate_side_attenuation(WallSide::East), 920);
    assert_eq!(calculate_side_attenuation(WallSide::West), 920);
}

#[test]
fn lighting_scales_channels_and_keeps_alpha() {
    let c = apply_lighting(Color::new(100, 200, 50, 123), 500);
    assert_eq!(c, Color::new(50, 100, 25, 123));
    let full = apply_lighting(Color::new(10, 20, 30, 255), 1000);
    assert_eq!(full, Color::new(10, 20, 30, 255));
}

#[test]
fn palette_colors_and_gray_fallback() {
    let tm = TextureManager::new();
    assert_eq!(tm.get_wall_color_fallback('#'), Color::new(200, 200, 120, 255));
    assert_eq!(tm.get_wall_color_fallback('r'), Color::new(180, 60, 60, 255));
    assert_eq!(tm.get_wall_color_fallback('e'), Color::new(100, 255, 100, 255));
    // Unmapped symbols resolve to neutral gray, never to "no color".
    assert_eq!(tm.get_wall_color_fallback('z'), Color::new(130, 130, 130, 255));
    assert_eq!(tm.get_wall_color('z'), Color::new(130, 130, 130, 255));
}

#[test]
fn procedural_wall_pattern_darkens_grid_lines() {
    let tm = TextureManager::new();
    // The cell corner lies on both grid lines: the corner factor applies.
    let corner = tm.get_wall_color_simple('#', 0, 0);
    assert_eq!(corner, Color::new(170, 170, 102, 255));
    // Mid-cell: the base color unchanged.
    let mid = tm.get_wall_color_simple('#', 200, 200);
    assert_eq!(mid, Color::new(200, 200, 120, 255));
}

#[test]
fn bitmap_overrides_procedural_pattern() {
    let mut tm = TextureManager::new();
    // A one-pixel red bitmap for '#'.
    let info = RealTextureInfo::new(vec![255, 0, 0, 255], 1, 1, Color::new(1, 2, 3, 255));
    tm.add_texture('#', info);
    assert!(tm.has_texture('#'));
    assert!(!tm.has_texture('r'));
    let c = tm.get_wall_color_textured('#', 512, 512);
    assert_eq!(c, Color::new(255, 0, 0, 255));
    // Symbols without a bitmap still fall back to the pattern.
    let r = tm.get_wall_color_textured('r', 0, 0);
    assert_eq!(r.a, 255);
}

#[test]
fn bitmap_sampling_clamps_and_falls_back() {
    // A 2x1 bitmap: left green, right blue.
    let info = RealTextureInfo::new(
        vec![0, 255, 0, 255, 0, 0, 255, 255],
        2,
        1,
        Color::new(9, 9, 9, 255),
    );
    assert_eq!(info.get_pixel_color(0, 0), Color::new(0, 255, 0, 255));
    assert_eq!(info.get_pixel_color(1024, 0), Color::new(0, 0, 255, 255));
    // Coordinates outside the unit range clamp.
    assert_eq!(info.get_pixel_color(-50, 2000), Color::new(0, 255, 0, 255));
    // An empty image falls back.
    let empty = RealTextureInfo::new(Vec::new(), 0, 0, Color::new(9, 9, 9, 255));
    assert_eq!(empty.get_pixel_color(0, 0), Color::new(9, 9, 9, 255));
}

#[test]
fn wall_frame_fills_depth_buffer_per_column() {
    let maze = maze_from(&["#####", "#   #", "#####"]);
    let mut fb = Framebuffer::new(16, 12);
    let tm = TextureManager::new();
    let player = Player::new_with_pos(300, 300, 0);
    let depths = render_world_textured(&mut fb, &maze, &tm, 100, &player);
    assert_eq!(depths.len(), 16);
    for d in &depths {
        assert!(*d >= 2);
        assert!(*d <= 2000);
    }
}

#[test]
fn empty_maze_renders_nothing_and_no_depths() {
    let maze = maze_from(&[]);
    let mut fb = Framebuffer::new(8, 8);
    let tm = TextureManager::new();
    let player = Player::new_with_pos(300, 300, 0);
    let depths = render_world_safe(&mut fb, &maze, &tm, 100, &player);
    assert_eq!(depths.len(), 0);
    assert_eq!(fb.get_pixel(0, 0), Color::new(0, 0, 0, 255));
}

#[test]
fn framebuffer_pixel_writes_are_clipped() {
    let mut fb = Framebuffer::new(4, 4);
    fb.set_current_color(Color::new(7, 8, 9, 255));
    fb.set_pixel(2, 3);
    assert_eq!(fb.get_pixel(2, 3), Color::new(7, 8, 9, 255));
    assert_eq!(fb.get_pixel(0, 0), Color::new(0, 0, 0, 255));
    // Out-of-frame writes are dropped.
    fb.set_pixel(10, 10);
    fb.set_background_color(Color::new(1, 1, 1, 255));
    fb.clear();
    assert_eq!(fb.get_pixel(2, 3), Color::new(1, 1, 1, 255));
}
