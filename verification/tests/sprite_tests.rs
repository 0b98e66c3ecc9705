use backrooms::framebuffer::{Color, Framebuffer};
use backrooms::maze::MazeData;
use backrooms::player::Player;
use backrooms::sprite_manager::{sprite_brightness, Sprite, SpriteManager, SpriteType};

fn maze_from(rows: &[&str]) -> MazeData {
    MazeData::new(rows.iter().map(|r| r.chars().collect()).collect())
}

#[test]
fn one_of_each_symbol_loads_exactly_five_active_sprites() {
    // A maze holding exactly one of each interactive symbol yields five
    // active sprites, each centered in its cell.
    let maze = maze_from(&["k c", " e ", "l t"]);
    let mut mgr = SpriteManager::new();
    mgr.load_sprites_from_maze(&maze, 100);
    assert_eq!(mgr.sprites.len(), 5);
    assert_eq!(mgr.sprite_count(), 5);
    for s in &mgr.sprites {
        assert!(s.active);
        // Centered: col * 200 + 100 subunits, which is col * 100 + 50 in
        // world units.
        assert_eq!((s.world_x - 100) % 200, 0);
        assert_eq!((s.world_y - 100) % 200, 0);
    }
    assert!(matches!(mgr.sprites[0].sprite_type, SpriteType::KeyGold));
    assert_eq!(mgr.sprites[0].world_x, 100);
    assert_eq!(mgr.sprites[0].world_y, 100);
    assert!(matches!(mgr.sprites[1].sprite_type, SpriteType::Checkpoint));
    assert_eq!(mgr.sprites[1].world_x, 500);
    assert!(matches!(mgr.sprites[2].sprite_type, SpriteType::ExitPortal));
    assert_eq!(mgr.sprites[2].world_y, 300);
    assert!(matches!(mgr.sprites[3].sprite_type, SpriteType::ExtraLife));
    assert!(matches!(mgr.sprites[4].sprite_type, SpriteType::TrapSpike));
}

#[test]
fn reloading_replaces_the_sprite_set() {
    let maze_a = maze_from(&["kk"]);
    let maze_b = maze_from(&["t"]);
    let mut mgr = SpriteManager::new();
    mgr.load_sprites_from_maze(&maze_a, 100);
    assert_eq!(mgr.sprites.len(), 2);
    mgr.load_sprites_from_maze(&maze_b, 100);
    assert_eq!(mgr.sprites.len(), 1);
    assert!(matches!(mgr.sprites[0].sprite_type, SpriteType::TrapSpike));
}

#[test]
fn symbol_binding_is_one_to_one() {
    assert!(matches!(SpriteType::from_char('k'), Some(SpriteType::KeyGold)));
    assert!(matches!(SpriteType::from_char('c'), Some(SpriteType::Checkpoint)));
    assert!(matches!(SpriteType::from_char('e'), Some(SpriteType::ExitPortal)));
    assert!(matches!(SpriteType::from_char('l'), Some(SpriteType::ExtraLife)));
    assert!(matches!(SpriteType::from_char('t'), Some(SpriteType::TrapSpike)));
    assert!(SpriteType::from_char('#').is_none());
    assert!(SpriteType::from_char(' ').is_none());
}

#[test]
fn base_scales_and_animation_flags() {
    assert_eq!(SpriteType::KeyGold.get_base_scale(), 800);
    assert_eq!(SpriteType::Checkpoint.get_base_scale(), 1200);
    assert_eq!(SpriteType::ExitPortal.get_base_scale(), 1500);
    assert_eq!(SpriteType::ExtraLife.get_base_scale(), 900);
    assert_eq!(SpriteType::TrapSpike.get_base_scale(), 1000);
    assert!(SpriteType::KeyGold.is_animated());
    assert!(!SpriteType::TrapSpike.is_animated());
}

#[test]
fn animation_is_deterministic_in_the_clock() {
    let mut a = Sprite::new(SpriteType::KeyGold, 100, 100);
    let mut b = Sprite::new(SpriteType::KeyGold, 100, 100);
    a.update(250);
    b.update(250);
    assert_eq!(a, b);
    assert_eq!(a.animation_time, 250);
    // The key pulses: after a quarter second of a two-radian-per-second
    // pulse the scale has moved off its base.
    assert!(a.scale != 800 || a.rotation != 0);
}

#[test]
fn static_and_inactive_sprites_do_not_animate() {
    let mut t = Sprite::new(SpriteType::TrapSpike, 100, 100);
    t.update(500);
    assert_eq!(t.scale, 1000);
    assert_eq!(t.animation_time, 0);
    let mut k = Sprite::new(SpriteType::KeyGold, 100, 100);
    k.active = false;
    k.update(500);
    assert_eq!(k.animation_time, 0);
    assert_eq!(k.scale, 800);
}

#[test]
fn distance_and_visibility() {
    let player = Player::new_with_pos(100, 100, 0);
    let s = Sprite::new(SpriteType::KeyGold, 400, 100);
    assert_eq!(s.distance_to_player(&player), 300);
    // Dead ahead along the heading: visible.
    assert!(s.is_visible_to_player(&player));
    // Behind the player: not visible.
    let behind = Sprite::new(SpriteType::KeyGold, 0, 100);
    assert!(!behind.is_visible_to_player(&player));
}

#[test]
fn remove_sprite_at_deactivates_first_match() {
    let maze = maze_from(&["k k"]);
    let mut mgr = SpriteManager::new();
    mgr.load_sprites_from_maze(&maze, 100);
    assert_eq!(mgr.sprite_count(), 2);
    let removed = mgr.remove_sprite_at(100, 100, 60);
    assert!(matches!(removed, Some(SpriteType::KeyGold)));
    assert_eq!(mgr.sprite_count(), 1);
    assert!(!mgr.sprites[0].active);
    assert!(mgr.sprites[1].active);
    // Far from everything: nothing to remove.
    assert!(mgr.remove_sprite_at(10000, 10000, 60).is_none());
}

#[test]
fn sprite_never_painted_where_wall_is_nearer() {
    // Occlusion: with every depth-buffer entry nearer than the sprite,
    // the frame does not change at all.
    let mut fb = Framebuffer::new(8, 8);
    let player = Player::new_with_pos(100, 200, 0);
    let maze = maze_from(&["  k"]);
    let mut mgr = SpriteManager::new();
    mgr.load_sprites_from_maze(&maze, 100);
    let near_walls: Vec<i64> = vec![10; 8];
    mgr.render_sprites(&mut fb, &player, &near_walls);
    for x in 0..8 {
        for y in 0..8 {
            assert_eq!(fb.get_pixel(x, y), Color::new(0, 0, 0, 255));
        }
    }
}

#[test]
fn sprite_painted_where_walls_are_farther() {
    let mut fb = Framebuffer::new(8, 8);
    let player = Player::new_with_pos(100, 200, 0);
    let maze = maze_from(&["  k"]);
    let mut mgr = SpriteManager::new();
    mgr.load_sprites_from_maze(&maze, 100);
    let far_walls: Vec<i64> = vec![2000; 8];
    mgr.render_sprites(&mut fb, &player, &far_walls);
    let mut changed = 0;
    for x in 0..8 {
        for y in 0..8 {
            if fb.get_pixel(x, y) != Color::new(0, 0, 0, 255) {
                changed += 1;
            }
        }
    }
    assert!(changed > 0);
}

#[test]
fn checkpoint_shape_is_transparent_off_the_cross() {
    let mgr = SpriteManager::new();
    let s = Sprite::new(SpriteType::Checkpoint, 100, 100);
    // Center of the cross: opaque cyan at full brightness.
    let center = mgr.get_sprite_color(&s, 512, 512, 1000);
    assert_eq!(center.a, 255);
    assert_eq!(center.g, 255);
    // A corner misses both bars: transparent.
    let corner = mgr.get_sprite_color(&s, 10, 10, 1000);
    assert_eq!(corner.a, 0);
}

#[test]
fn trap_shape_has_spike_columns() {
    let mgr = SpriteManager::new();
    let s = Sprite::new(SpriteType::TrapSpike, 100, 100);
    // Low rows are transparent everywhere.
    let top = mgr.get_sprite_color(&s, 100, 100, 1000);
    assert_eq!(top.a, 0);
    // In the lower area the even spike columns are opaque red.
    let spike = mgr.get_sprite_color(&s, 100, 900, 1000);
    assert_eq!(spike.a, 255);
    assert_eq!(spike.r, 230);
    // The odd columns between spikes stay transparent.
    let gap = mgr.get_sprite_color(&s, 300, 900, 1000);
    assert_eq!(gap.a, 0);
}

#[test]
fn sprite_brightness_darkens_with_distance() {
    assert_eq!(sprite_brightness(0), 1000);
    assert_eq!(sprite_brightness(800), 790);
    assert!(sprite_brightness(100) >= sprite_brightness(700));
}
