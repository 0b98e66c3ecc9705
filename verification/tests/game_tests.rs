use backrooms::audio::{event_sound_name, FootstepTimer, GameAudioEvent, MusicType};
use backrooms::collision::CollisionSystem;
use backrooms::game_state::{GameMode, GameState};
use backrooms::maze::Maze;
use backrooms::notification::{Notification, NotificationManager, NotificationType};
use backrooms::player::{
    can_move_to_with_maze, process_events_with_maze_safe, process_mouse_input_safe, InputState,
    Player,
};

fn grid(rows: &[&str]) -> Maze {
    rows.iter().map(|r| r.chars().collect()).collect()
}

fn no_input() -> InputState {
    InputState {
        turn_right: false,
        turn_left: false,
        forward: false,
        backward: false,
        strafe_right: false,
        strafe_left: false,
    }
}

fn playing_state(rows: &[&str], px: i64, py: i64) -> GameState {
    let mut s = GameState::new();
    s.start_game(1, grid(rows));
    s.data.player.x = px;
    s.data.player.y = py;
    s
}

#[test]
fn key_pickup_consumes_cell_and_emits_event() {
    let mut s = playing_state(&["k"], 100, 100);
    let mut events: Vec<GameAudioEvent> = Vec::new();
    s.check_player_interactions_with_notifications(&mut events, 100);
    assert_eq!(s.data.maze[0][0], ' ');
    assert_eq!(s.data.keys_collected, 1);
    assert!(s.data.has_key);
    assert_eq!(events.len(), 1);
    assert!(matches!(events[0], GameAudioEvent::KeyPickup));
    assert!(s.data.notification_manager.notifications.len() >= 1);
}

#[test]
fn trap_costs_a_life_and_pushes_back() {
    let mut s = playing_state(&["t"], 100, 100);
    assert_eq!(s.data.lives, 3);
    let mut events: Vec<GameAudioEvent> = Vec::new();
    s.check_player_interactions_with_notifications(&mut events, 100);
    assert_eq!(s.data.maze[0][0], ' ');
    assert_eq!(s.data.lives, 2);
    // The push back stops at fifty world units from the origin.
    assert_eq!(s.data.player.x, 100);
    assert_eq!(s.data.player.y, 100);
    assert_eq!(events.len(), 2);
    assert!(matches!(events[0], GameAudioEvent::TrapTriggered));
    assert!(matches!(events[1], GameAudioEvent::PlayerHurt));
}

#[test]
fn extra_life_increments_lives() {
    let mut s = playing_state(&["l"], 100, 100);
    let mut events: Vec<GameAudioEvent> = Vec::new();
    s.check_player_interactions_with_notifications(&mut events, 100);
    assert_eq!(s.data.lives, 4);
    assert_eq!(s.data.maze[0][0], ' ');
    assert_eq!(events.len(), 1);
}

#[test]
fn checkpoint_is_recorded_once() {
    let mut s = playing_state(&["c"], 100, 100);
    let mut events: Vec<GameAudioEvent> = Vec::new();
    s.check_player_interactions_with_notifications(&mut events, 100);
    assert_eq!(s.data.visited_checkpoints.len(), 1);
    assert_eq!(s.data.visited_checkpoints[0], (0, 0));
    assert!(matches!(events[0], GameAudioEvent::CheckpointReached));
    // A second visit neither re-records nor re-notifies.
    s.check_player_interactions_with_notifications(&mut events, 100);
    assert_eq!(s.data.visited_checkpoints.len(), 1);
    assert_eq!(events.len(), 1);
    // The checkpoint cell itself is kept.
    assert_eq!(s.data.maze[0][0], 'c');
}

#[test]
fn outside_the_grid_nothing_happens() {
    let mut s = playing_state(&["k"], 10000, 10000);
    let mut events: Vec<GameAudioEvent> = Vec::new();
    s.check_player_interactions_with_notifications(&mut events, 100);
    assert_eq!(s.data.maze[0][0], 'k');
    assert_eq!(s.data.keys_collected, 0);
    assert!(events.is_empty());
}

#[test]
fn win_needs_exit_key_and_checkpoints() {
    let mut s = playing_state(&["e"], 100, 100);
    assert!(!s.check_win_condition_safe());
    s.data.has_key = true;
    assert!(s.check_win_condition_safe());
    // A later level also demands checkpoints.
    s.data.current_level = 2;
    assert!(!s.check_win_condition_safe());
    s.data.visited_checkpoints.push((1, 1));
    assert!(s.check_win_condition_safe());
}

#[test]
fn victory_emits_level_complete() {
    let mut s = playing_state(&["e"], 100, 100);
    s.data.has_key = true;
    let mut events: Vec<GameAudioEvent> = Vec::new();
    s.update_with_audio(&mut events, 100);
    assert!(matches!(s.mode, GameMode::Victory));
    assert!(events.iter().any(|e| matches!(e, GameAudioEvent::LevelComplete)));
}

#[test]
fn plain_update_consumes_cells_without_notifications() {
    let mut s = playing_state(&["k"], 100, 100);
    s.clear_notifications();
    s.update(100);
    assert_eq!(s.data.maze[0][0], ' ');
    assert_eq!(s.data.keys_collected, 1);
    assert!(s.data.has_key);
    // The plain step queues no notifications.
    assert_eq!(s.data.notification_manager.notifications.len(), 0);
}

#[test]
fn game_over_when_lives_run_out() {
    let mut s = playing_state(&[" "], 100, 100);
    s.data.lives = 0;
    let mut events: Vec<GameAudioEvent> = Vec::new();
    s.update_with_audio(&mut events, 100);
    assert!(matches!(s.mode, GameMode::GameOver));
}

#[test]
fn levels_demand_more_keys() {
    let mut s = GameState::new();
    s.start_game(1, grid(&["   "]));
    assert_eq!(s.data.keys_needed, 1);
    s.load_level(2, grid(&["   "]));
    assert_eq!(s.data.keys_needed, 2);
    s.load_level(3, grid(&["   "]));
    assert_eq!(s.data.keys_needed, 3);
}

#[test]
fn unusable_grid_falls_back_to_emergency_maze() {
    let mut s = GameState::new();
    s.start_game(1, Vec::new());
    assert!(s.data.maze.len() == 16);
    let mut s2 = GameState::new();
    s2.start_game(1, grid(&["###", ""]));
    assert_eq!(s2.data.maze.len(), 16);
}

#[test]
fn reset_restores_the_welcome_state() {
    let mut s = playing_state(&["k"], 100, 100);
    s.data.lives = 1;
    s.reset();
    assert!(matches!(s.mode, GameMode::Welcome));
    assert_eq!(s.data.lives, 3);
    assert_eq!(s.data.current_level, 1);
    assert!(!s.data.has_key);
}

#[test]
fn rotation_keys_turn_by_the_fixed_step() {
    let maze = grid(&["     ", "     ", "     "]);
    let mut p = Player::new_with_pos(300, 300, 0);
    let mut input = no_input();
    input.turn_right = true;
    process_events_with_maze_safe(&mut p, &input, &maze, 100);
    assert_eq!(p.a, 1820);
    input.turn_right = false;
    input.turn_left = true;
    process_events_with_maze_safe(&mut p, &input, &maze, 100);
    assert_eq!(p.a, 0);
    // Turning left from zero wraps.
    process_events_with_maze_safe(&mut p, &input, &maze, 100);
    assert_eq!(p.a, 65536 - 1820);
}

#[test]
fn forward_movement_respects_walls() {
    // Open 3x3 area: moving forward along +x advances by the step.
    let open = grid(&["     ", "     ", "     "]);
    let mut p = Player::new_with_pos(300, 300, 0);
    let mut input = no_input();
    input.forward = true;
    process_events_with_maze_safe(&mut p, &input, &open, 100);
    assert_eq!(p.x, 336);
    assert_eq!(p.y, 300);
    // Fully walled: the player stays.
    let walls = grid(&["###", "###", "###"]);
    let mut q = Player::new_with_pos(300, 300, 0);
    process_events_with_maze_safe(&mut q, &input, &walls, 100);
    assert_eq!(q.x, 300);
    assert_eq!(q.y, 300);
}

#[test]
fn mouse_turns_against_the_delta() {
    let mut p = Player::new_with_pos(300, 300, 1000);
    process_mouse_input_safe(&mut p, 10);
    assert_eq!(p.a, (1000 - 210 + 65536) % 65536);
    process_mouse_input_safe(&mut p, -10);
    assert_eq!(p.a, 1000);
}

#[test]
fn body_probe_needs_clearance_for_the_radius() {
    // A single open cell is too tight for the default radius near its
    // wall-side edges but fine in a wide open area.
    let open = grid(&["    ", "    ", "    ", "    "]);
    assert!(can_move_to_with_maze(400, 400, &open, 100));
    let tight = grid(&["###", "# #", "###"]);
    assert!(!can_move_to_with_maze(220, 300, &tight, 100));
}

#[test]
fn collision_system_checks_bounds_and_walkability() {
    let cs = CollisionSystem::new(grid(&["# ", " e"]), 100);
    assert_eq!(cs.get_dimensions(), (2, 2));
    assert!(cs.is_within_bounds(1, 1));
    assert!(!cs.is_within_bounds(2, 0));
    assert_eq!(cs.get_cell(100, 100), '#');
    assert_eq!(cs.safe_raycast_check(300, 300), 'e');
    assert_eq!(cs.get_cell(-5, 0), '#');
    assert!(!cs.can_move_to(100, 100));
    assert!(cs.can_move_to(300, 100));
    assert!(!cs.can_move_to(900, 100));
}

#[test]
fn collision_radius_probe_and_maze_update() {
    let mut cs = CollisionSystem::new(grid(&["    ", "    ", "    "]), 100);
    assert!(cs.can_move_to_with_radius(300, 300, 40));
    cs.update_maze(grid(&["####", "####", "####"]));
    assert!(!cs.can_move_to_with_radius(300, 300, 40));
}

#[test]
fn notifications_count_down_and_expire() {
    let mut n = Notification::new(String::from("HOLA"), NotificationType::Info, 1500);
    assert_eq!(n.get_alpha(), 1000);
    assert!(n.update(600));
    assert_eq!(n.remaining_ms, 900);
    assert_eq!(n.get_alpha(), 900);
    assert!(!n.update(1000));
    let mut mgr = NotificationManager::new();
    mgr.add_notification(String::from("UNO"), NotificationType::Success, 1000);
    mgr.add_notification(String::from("DOS"), NotificationType::Error, 3000);
    assert_eq!(mgr.notifications.len(), 2);
    // The newest stands first.
    assert!(matches!(mgr.notifications[0].notification_type, NotificationType::Error));
    mgr.update(2000);
    assert_eq!(mgr.notifications.len(), 1);
    mgr.clear_all();
    assert_eq!(mgr.notifications.len(), 0);
}

#[test]
fn notification_queue_drops_the_oldest_beyond_the_limit() {
    let mut mgr = NotificationManager::new();
    for _ in 0..7 {
        mgr.add_notification(String::from("X"), NotificationType::Info, 1000);
    }
    assert_eq!(mgr.notifications.len(), 5);
}

#[test]
fn footstep_timer_fires_every_interval_while_walking() {
    let mut t = FootstepTimer::new();
    assert!(!t.update(500));
    t.handle_player_movement(true);
    assert!(t.is_walking);
    assert!(!t.update(200));
    assert!(t.update(200));
    assert_eq!(t.timer_ms, 0);
    t.handle_player_movement(false);
    assert!(!t.update(1000));
}

#[test]
fn audio_events_map_to_sound_cues() {
    assert_eq!(event_sound_name(GameAudioEvent::KeyPickup), "key_pickup");
    assert_eq!(event_sound_name(GameAudioEvent::TrapTriggered), "trap_trigger");
    assert_eq!(event_sound_name(GameAudioEvent::PlayerHurt), "player_hurt");
    assert_eq!(event_sound_name(GameAudioEvent::CheckpointReached), "key_pickup");
    assert_eq!(event_sound_name(GameAudioEvent::LevelComplete), "level_complete");
    assert!(MusicType::Menu != MusicType::Background);
}
