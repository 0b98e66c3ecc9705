use backrooms::framebuffer::{Color, Framebuffer};
use backrooms::game_state::GameState;
use backrooms::maze::Maze;
use backrooms::player::Player;
use backrooms::render::render_world_with_sprites;
use backrooms::shapes::{get_sprite_color, get_sprite_scale, render_world_objects};
use backrooms::sprite_manager::SpriteManager;
use backrooms::texture_manager::TextureManager;
use backrooms::ui::{
    render_fps, render_game_over, render_hud, render_hud_enhanced, render_minimap, render_text,
    render_victory, render_welcome_screen,
};

fn grid(rows: &[&str]) -> Maze {
    rows.iter().map(|r| r.chars().collect()).collect()
}

#[test]
fn full_frame_renders_walls_then_sprites() {
    let maze_data = backrooms::maze::MazeData::new(grid(&["#####", "# k #", "#####"]));
    let mut fb = Framebuffer::new(32, 24);
    let tm = TextureManager::new();
    let mut sm = SpriteManager::new();
    sm.load_sprites_from_maze(&maze_data, 100);
    let player = Player::new_with_pos(300, 300, 0);
    render_world_with_sprites(&mut fb, &maze_data, &tm, &sm, 100, &player);
    assert_eq!(fb.width, 32);
    assert_eq!(fb.height, 24);
    // Something was painted over the initial black frame.
    let mut changed = 0;
    for x in 0..32 {
        for y in 0..24 {
            if fb.get_pixel(x, y) != Color::new(0, 0, 0, 255) {
                changed += 1;
            }
        }
    }
    assert!(changed > 0);
}

#[test]
fn empty_maze_leaves_the_frame_untouched() {
    let maze_data = backrooms::maze::MazeData::new(Vec::new());
    let mut fb = Framebuffer::new(8, 8);
    fb.set_current_color(Color::new(9, 9, 9, 255));
    fb.set_pixel(3, 3);
    let tm = TextureManager::new();
    let sm = SpriteManager::new();
    let player = Player::new_with_pos(300, 300, 0);
    render_world_with_sprites(&mut fb, &maze_data, &tm, &sm, 100, &player);
    assert_eq!(fb.get_pixel(3, 3), Color::new(9, 9, 9, 255));
    assert_eq!(fb.get_pixel(0, 0), Color::new(0, 0, 0, 255));
}

#[test]
fn flat_object_renderer_draws_into_the_frame() {
    let maze_data = backrooms::maze::MazeData::new(grid(&["  k  "]));
    let mut fb = Framebuffer::new(32, 24);
    let tm = TextureManager::new();
    let player = Player::new_with_pos(100, 100, 0);
    render_world_objects(&mut fb, &maze_data, &tm, &player, 100);
    assert_eq!(fb.width, 32);
}

#[test]
fn object_palette_and_scales() {
    assert_eq!(get_sprite_color('k'), Color::new(255, 203, 0, 255));
    assert_eq!(get_sprite_color('t'), Color::new(230, 41, 55, 255));
    assert_eq!(get_sprite_color('?'), Color::new(255, 255, 255, 255));
    assert_eq!(get_sprite_scale('k'), 150);
    assert_eq!(get_sprite_scale('c'), 200);
    assert_eq!(get_sprite_scale('?'), 150);
}

#[test]
fn menu_screens_keep_the_frame_shape() {
    let mut fb = Framebuffer::new(64, 48);
    render_welcome_screen(&mut fb, 1234);
    render_game_over(&mut fb, 1234);
    render_victory(&mut fb, 1234, 1);
    render_victory(&mut fb, 1234, 3);
    render_fps(&mut fb, 60);
    assert_eq!(fb.width, 64);
    assert_eq!(fb.height, 48);
}

#[test]
fn hud_and_minimap_render_over_the_game() {
    let mut s = GameState::new();
    s.start_game(1, grid(&["#####", "# k #", "#####"]));
    let mut fb = Framebuffer::new(256, 200);
    render_hud(&mut fb, &s.data);
    render_hud_enhanced(&mut fb, &s.data, 60);
    render_minimap(&mut fb, &s.data.maze, &s.data.player, 100);
    assert_eq!(fb.width, 256);
}

#[test]
fn text_renders_with_the_current_color() {
    let mut fb = Framebuffer::new(64, 16);
    fb.set_current_color(Color::new(255, 255, 255, 255));
    render_text(&mut fb, "HI", 1, 1);
    // The 'H' glyph lights its top-left pixel.
    assert_eq!(fb.get_pixel(1, 1), Color::new(255, 255, 255, 255));
    // A space glyph lights nothing.
    let mut fb2 = Framebuffer::new(64, 16);
    fb2.set_current_color(Color::new(255, 255, 255, 255));
    render_text(&mut fb2, " ", 1, 1);
    for x in 0..12 {
        for y in 0..10 {
            assert_eq!(fb2.get_pixel(x, y), Color::new(0, 0, 0, 255));
        }
    }
}
