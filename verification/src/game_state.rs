//! The game state: mode, level data and the interaction step that consumes
//! interactive cells under the player, adjusts lives and keys, queues
//! notifications and emits the audio events the caller may turn into
//! sound. Maze mutation happens here, strictly between renders.

use vstd::prelude::*;

use crate::audio::GameAudioEvent;
use crate::maze::{grid_view, row_from_str, Maze};
use crate::notification::NotificationManager;
use crate::player::{pos_walkable, Player, DEFAULT_FOV, DEFAULT_RADIUS};
use crate::SUB;

verus! {

/// The top-level game mode.
#[derive(Debug, Clone, Copy, PartialEq, Eq, Structural)]
pub enum GameMode {
    Welcome,
    Playing,
    GameOver,
    Victory,
}

/// The caps on counters, so they never overflow.
pub const COUNTER_CAP: i64 = 0x1000_0000;

/// The keys a level demands.
pub open spec fn keys_needed_spec(level: int) -> int {
    if level == 1 {
        1
    } else if level == 2 {
        2
    } else if level == 3 {
        3
    } else {
        1
    }
}

/// The checkpoints a level demands before its exit opens.
pub open spec fn checkpoints_needed_spec(level: int) -> int {
    if level == 1 {
        0
    } else if level == 2 {
        1
    } else if level == 3 {
        2
    } else {
        0
    }
}

/// Everything one running level holds.
pub struct GameData {
    pub maze: Maze,
    pub player: Player,
    pub current_level: usize,
    pub lives: i64,
    pub has_key: bool,
    pub keys_collected: i64,
    pub keys_needed: i64,
    pub visited_checkpoints: Vec<(usize, usize)>,
    pub animation_time: i64,
    pub notification_manager: NotificationManager,
}

/// The game state: the mode and the level data.
pub struct GameState {
    pub mode: GameMode,
    pub data: GameData,
}

/// Whether a checkpoint cell is already in the visited list.
pub open spec fn checkpoint_visited(v: Seq<(usize, usize)>, gx: int, gy: int) -> bool {
    exists|i: int| 0 <= i < v.len() && #[trigger] v[i] == (gx as usize, gy as usize)
}

/// One trap push along one axis: ten world units backwards, stopped at
/// fifty world units from the origin.
pub open spec fn trap_push(w: int) -> int {
    if w - 20 < 100 {
        100
    } else {
        w - 20
    }
}

/// The audio events one interaction step emits, keyed by the cell under
/// the player: a pickup cue for a key or an extra life, the trap and hurt
/// cues for a trap, the checkpoint cue on a first visit, and nothing
/// outside the grid or on any other cell.
pub open spec fn interaction_events_spec(pre: GameState, block: int) -> Seq<GameAudioEvent> {
    let g = grid_view(pre.data.maze);
    let cell_sz = block * (SUB as int);
    let px = pre.data.player.x as int;
    let py = pre.data.player.y as int;
    let gx = px / cell_sz;
    let gy = py / cell_sz;
    if px < 0 || py < 0 || g.len() == 0 || gy >= g.len() || gx >= g[gy].len() {
        Seq::empty()
    } else {
        let c = g[gy][gx];
        if c == 'k' {
            seq![GameAudioEvent::KeyPickup]
        } else if c == 't' {
            seq![GameAudioEvent::TrapTriggered, GameAudioEvent::PlayerHurt]
        } else if c == 'l' {
            seq![GameAudioEvent::KeyPickup]
        } else if c == 'c' {
            if checkpoint_visited(pre.data.visited_checkpoints@, gx, gy) {
                Seq::empty()
            } else {
                seq![GameAudioEvent::CheckpointReached]
            }
        } else {
            Seq::empty()
        }
    }
}

/// The state effect of one interaction step on the cell under the player:
/// a key is consumed and counted, unlocking the exit when enough are
/// held; a trap is consumed, costs a life and pushes the player back; an
/// extra life is consumed and counted; a first-visit checkpoint is
/// recorded; the exit and everything else change nothing, as does any
/// position outside the grid. The mode, clocks and notification queue are
/// not constrained here.
pub open spec fn interaction_step(pre: GameState, post: GameState, block: int) -> bool {
    let g = grid_view(pre.data.maze);
    let cell_sz = block * (SUB as int);
    let px = pre.data.player.x as int;
    let py = pre.data.player.y as int;
    let gx = px / cell_sz;
    let gy = py / cell_sz;
    &&& post.data.current_level == pre.data.current_level
    &&& post.data.keys_needed == pre.data.keys_needed
    &&& post.data.player.a == pre.data.player.a
    &&& post.data.player.fov == pre.data.player.fov
    &&& post.data.player.radius == pre.data.player.radius
    &&& if px < 0 || py < 0 || g.len() == 0 || gy >= g.len() || gx >= g[gy].len() {
        unchanged_interaction(pre, post)
    } else {
        let c = g[gy][gx];
        &&& (c == 'k' ==> {
            &&& grid_view(post.data.maze) == g.update(gy, g[gy].update(gx, ' '))
            &&& post.data.keys_collected == capped_inc(pre.data.keys_collected as int)
            &&& post.data.has_key == (post.data.keys_collected >= pre.data.keys_needed)
            &&& post.data.lives == pre.data.lives
            &&& post.data.player.x == pre.data.player.x
            &&& post.data.player.y == pre.data.player.y
            &&& post.data.visited_checkpoints == pre.data.visited_checkpoints
        })
        &&& (c == 't' ==> {
            &&& grid_view(post.data.maze) == g.update(gy, g[gy].update(gx, ' '))
            &&& post.data.lives == (if pre.data.lives > 0 {
                pre.data.lives - 1
            } else {
                pre.data.lives as int
            })
            &&& post.data.keys_collected == pre.data.keys_collected
            &&& post.data.has_key == pre.data.has_key
            &&& post.data.player.x == trap_push(pre.data.player.x as int)
            &&& post.data.player.y == trap_push(pre.data.player.y as int)
            &&& post.data.visited_checkpoints == pre.data.visited_checkpoints
        })
        &&& (c == 'l' ==> {
            &&& grid_view(post.data.maze) == g.update(gy, g[gy].update(gx, ' '))
            &&& post.data.lives == capped_inc(pre.data.lives as int)
            &&& post.data.keys_collected == pre.data.keys_collected
            &&& post.data.has_key == pre.data.has_key
            &&& post.data.player.x == pre.data.player.x
            &&& post.data.player.y == pre.data.player.y
            &&& post.data.visited_checkpoints == pre.data.visited_checkpoints
        })
        &&& (c == 'c' ==> {
            &&& post.data.maze == pre.data.maze
            &&& post.data.lives == pre.data.lives
            &&& post.data.keys_collected == pre.data.keys_collected
            &&& post.data.has_key == pre.data.has_key
            &&& post.data.player.x == pre.data.player.x
            &&& post.data.player.y == pre.data.player.y
            &&& (if checkpoint_visited(pre.data.visited_checkpoints@, gx, gy) {
                post.data.visited_checkpoints == pre.data.visited_checkpoints
            } else {
                post.data.visited_checkpoints@ == pre.data.visited_checkpoints@.push(
                    (gx as usize, gy as usize),
                )
            })
        })
        &&& (c == 'e' || !(c == 'k' || c == 't' || c == 'l' || c == 'c')
            ==> unchanged_interaction(pre, post))
    }
}

impl GameState {
    /// Well-formedness: the pose and counters stay in range.
    pub open spec fn wf(self) -> bool {
        &&& self.data.player.wf()
        &&& self.data.notification_manager.wf()
        &&& 0 <= self.data.lives <= COUNTER_CAP
        &&& 0 <= self.data.keys_collected <= COUNTER_CAP
        &&& 1 <= self.data.keys_needed <= COUNTER_CAP
        &&& 0 <= self.data.animation_time <= COUNTER_CAP
        &&& self.data.current_level <= 0x10000
    }

    /// A fresh game: welcome screen, three lives, empty maze.
    pub fn new() -> (r: GameState)
        ensures
            r.wf(),
            r.mode == GameMode::Welcome,
            r.data.lives == 3,
            r.data.current_level == 1,
            !r.data.has_key,
            r.data.keys_collected == 0,
            r.data.maze@.len() == 0,
    {
        GameState {
            mode: GameMode::Welcome,
            data: GameData {
                maze: Vec::new(),
                player: Player::new(),
                current_level: 1,
                lives: 3,
                has_key: false,
                keys_collected: 0,
                keys_needed: 1,
                visited_checkpoints: Vec::new(),
                animation_time: 0,
                notification_manager: NotificationManager::new(),
            },
        }
    }

    /// Starts playing the given level with its loaded grid.
    pub fn start_game(&mut self, level: usize, grid: Maze)
        requires
            old(self).wf(),
            level <= 0x10000,
            grid@.len() <= 0x1000,
            forall|i: int| 0 <= i < grid@.len() ==> (#[trigger] grid@[i])@.len() <= 0x1000,
        ensures
            final(self).wf(),
            final(self).mode == GameMode::Playing,
            final(self).data.keys_needed == keys_needed_spec(level as int),
            final(self).data.keys_collected == 0,
            !final(self).data.has_key,
    {
        self.mode = GameMode::Playing;
        self.load_level(level, grid);
    }

    /// Installs a level: the given grid, or the built-in emergency maze
    /// when the grid is empty or has an empty row; resets keys and
    /// checkpoints, sets the level's key demand, and places the player on
    /// a safe spawn cell.
    pub fn load_level(&mut self, level: usize, grid: Maze)
        requires
            old(self).wf(),
            level <= 0x10000,
            grid@.len() <= 0x1000,
            forall|i: int| 0 <= i < grid@.len() ==> (#[trigger] grid@[i])@.len() <= 0x1000,
        ensures
            final(self).wf(),
            final(self).mode == old(self).mode,
            final(self).data.current_level == level,
            final(self).data.keys_needed == keys_needed_spec(level as int),
            final(self).data.keys_collected == 0,
            !final(self).data.has_key,
            final(self).data.visited_checkpoints@.len() == 0,
            final(self).data.lives == old(self).data.lives,
            final(self).data.maze@.len() <= 0x1000,
            forall|i: int|
                0 <= i < final(self).data.maze@.len() ==> (#[trigger] final(self).data.maze@[i])@.len() <= 0x1000,
    {
        let mut usable = grid.len() > 0;
        let mut i: usize = 0;
        while i < grid.len()
            invariant
                0 <= i <= grid@.len(),
            decreases grid@.len() - i,
        {
            if grid[i].len() == 0 {
                usable = false;
            }
            i = i + 1;
        }
        if usable {
            self.data.maze = grid;
        } else {
            self.data.maze = create_emergency_maze();
        }
        self.data.current_level = level;
        self.data.has_key = false;
        self.data.keys_collected = 0;
        self.data.visited_checkpoints = Vec::new();
        self.data.keys_needed = if level == 1 {
            1
        } else if level == 2 {
            2
        } else if level == 3 {
            3
        } else {
            1
        };
        self.set_player_start_position(level);
        self.validate_player_position();
    }

    /// Places the player: on the first clear spawn cell, else at the
    /// level's default position and heading.
    fn set_player_start_position(&mut self, level: usize)
        requires
            old(self).wf(),
            old(self).data.maze@.len() <= 0x1000,
            forall|i: int|
                0 <= i < old(self).data.maze@.len() ==> (#[trigger] old(self).data.maze@[i])@.len() <= 0x1000,
        ensures
            final(self).wf(),
            final(self).mode == old(self).mode,
            final(self).data.maze == old(self).data.maze,
            final(self).data.current_level == old(self).data.current_level,
            final(self).data.lives == old(self).data.lives,
            final(self).data.keys_collected == old(self).data.keys_collected,
            final(self).data.keys_needed == old(self).data.keys_needed,
            final(self).data.has_key == old(self).data.has_key,
            final(self).data.visited_checkpoints == old(self).data.visited_checkpoints,
    {
        let spawn = self.find_spawn_position();
        let start_angle: i64 = if level == 1 {
            8192
        } else if level == 2 {
            10923
        } else if level == 3 {
            32768
        } else {
            8192
        };
        let (sx, sy) = match spawn {
            Some(p) => p,
            None => (300, 300),
        };
        self.data.player = Player {
            x: sx,
            y: sy,
            a: if level == 2 {
                0
            } else {
                start_angle
            },
            fov: DEFAULT_FOV,
            radius: DEFAULT_RADIUS,
        };
        if !self.is_position_safe(self.data.player.x, self.data.player.y) {
            self.find_safe_start_position();
        }
    }

    /// The world center of the first empty cell with full clearance, if
    /// one exists; positions assume the standard cell size of 100 world
    /// units.
    fn find_spawn_position(&self) -> (r: Option<(i64, i64)>)
        requires
            self.data.maze@.len() <= 0x1000,
            forall|i: int|
                0 <= i < self.data.maze@.len() ==> (#[trigger] self.data.maze@[i])@.len() <= 0x1000,
        ensures
            r is Some ==> {
                &&& 0 <= r.unwrap().0 <= 0x4000_0000
                &&& 0 <= r.unwrap().1 <= 0x4000_0000
            },
    {
        let height = self.data.maze.len();
        let mut y: usize = 0;
        while y < height
            invariant
                height == self.data.maze@.len(),
                height <= 0x1000,
                forall|i: int|
                    0 <= i < self.data.maze@.len() ==> (#[trigger] self.data.maze@[i])@.len()
                        <= 0x1000,
                0 <= y <= height,
            decreases height - y,
        {
            let row_len = self.data.maze[y].len();
            let mut x: usize = 0;
            while x < row_len
                invariant
                    height == self.data.maze@.len(),
                    height <= 0x1000,
                    forall|i: int|
                        0 <= i < self.data.maze@.len() ==> (#[trigger] self.data.maze@[i])@.len()
                            <= 0x1000,
                    y < height,
                    row_len == self.data.maze@[y as int]@.len(),
                    row_len <= 0x1000,
                    0 <= x <= row_len,
                decreases row_len - x,
            {
                if self.data.maze[y][x] == ' ' {
                    if self.has_spawn_clearance(x, y) {
                        let world_x = (x as i64) * 200 + 100;
                        let world_y = (y as i64) * 200 + 100;
                        return Some((world_x, world_y));
                    }
                }
                x = x + 1;
            }
            y = y + 1;
        }
        None
    }

    /// Whether the 3-by-3 neighborhood of a grid cell holds no wall.
    fn has_spawn_clearance(&self, x: usize, y: usize) -> (r: bool)
        requires
            x <= 0x1000,
            y <= 0x1000,
            self.data.maze@.len() <= 0x1000,
            forall|i: int|
                0 <= i < self.data.maze@.len() ==> (#[trigger] self.data.maze@[i])@.len() <= 0x1000,
    {
        if self.data.maze.len() == 0 {
            return false;
        }
        let mut dy: i64 = -1;
        while dy <= 1
            invariant
                x <= 0x1000,
                y <= 0x1000,
                self.data.maze@.len() <= 0x1000,
                forall|i: int|
                    0 <= i < self.data.maze@.len() ==> (#[trigger] self.data.maze@[i])@.len()
                        <= 0x1000,
                -1 <= dy <= 2,
            decreases 2 - dy,
        {
            let mut dx: i64 = -1;
            while dx <= 1
                invariant
                    x <= 0x1000,
                    y <= 0x1000,
                    self.data.maze@.len() <= 0x1000,
                    forall|i: int|
                        0 <= i < self.data.maze@.len() ==> (#[trigger] self.data.maze@[i])@.len()
                            <= 0x1000,
                    -1 <= dx <= 2,
                    -1 <= dy <= 1,
                decreases 2 - dx,
            {
                let check_x = x as i64 + dx;
                let check_y = y as i64 + dy;
                if check_x >= 0 && check_y >= 0 {
                    let cx = check_x as usize;
                    let cy = check_y as usize;
                    if cy < self.data.maze.len() {
                        let row = &self.data.maze[cy];
                        if cx < row.len() {
                            let cell = row[cx];
                            if crate::cells::is_wall_cell(cell) {
                                return false;
                            }
                        }
                    }
                }
                dx = dx + 1;
            }
            dy = dy + 1;
        }
        true
    }

    /// Moves the player to the first safe empty cell, or the default
    /// position when none exists.
    fn find_safe_start_position(&mut self)
        requires
            old(self).wf(),
            old(self).data.maze@.len() <= 0x1000,
            forall|i: int|
                0 <= i < old(self).data.maze@.len() ==> (#[trigger] old(self).data.maze@[i])@.len() <= 0x1000,
        ensures
            final(self).wf(),
            final(self).mode == old(self).mode,
            final(self).data.maze == old(self).data.maze,
            final(self).data.current_level == old(self).data.current_level,
            final(self).data.lives == old(self).data.lives,
            final(self).data.keys_collected == old(self).data.keys_collected,
            final(self).data.keys_needed == old(self).data.keys_needed,
            final(self).data.has_key == old(self).data.has_key,
            final(self).data.visited_checkpoints == old(self).data.visited_checkpoints,
            final(self).data.player.a == old(self).data.player.a,
            final(self).data.player.fov == old(self).data.player.fov,
            final(self).data.player.radius == old(self).data.player.radius,
    {
        let height = self.data.maze.len();
        let mut y: usize = 0;
        while y < height
            invariant
                self.wf(),
                self == old(self),
                height == self.data.maze@.len(),
                height <= 0x1000,
                forall|i: int|
                    0 <= i < self.data.maze@.len() ==> (#[trigger] self.data.maze@[i])@.len()
                        <= 0x1000,
                0 <= y <= height,
            decreases height - y,
        {
            let row_len = self.data.maze[y].len();
            let mut x: usize = 0;
            while x < row_len
                invariant
                    self.wf(),
                    self == old(self),
                    height == self.data.maze@.len(),
                    height <= 0x1000,
                    y < height,
                    row_len == self.data.maze@[y as int]@.len(),
                    row_len <= 0x1000,
                    0 <= x <= row_len,
                decreases row_len - x,
            {
                if self.data.maze[y][x] == ' ' {
                    let world_x = (x as i64) * 200 + 100;
                    let world_y = (y as i64) * 200 + 100;
                    if self.is_position_safe(world_x, world_y) {
                        self.data.player.x = world_x;
                        self.data.player.y = world_y;
                        return;
                    }
                }
                x = x + 1;
            }
            y = y + 1;
        }
        self.data.player.x = 300;
        self.data.player.y = 300;
    }

    /// Advances to the next level with its loaded grid, or declares
    /// victory after the final one.
    pub fn next_level(&mut self, grid: Maze)
        requires
            old(self).wf(),
            grid@.len() <= 0x1000,
            forall|i: int| 0 <= i < grid@.len() ==> (#[trigger] grid@[i])@.len() <= 0x1000,
        ensures
            final(self).wf(),
            old(self).data.current_level < 3 ==> final(self).mode == GameMode::Playing && final(self).data.current_level == old(self).data.current_level + 1,
            old(self).data.current_level >= 3 ==> final(self).mode == GameMode::Victory,
    {
        if self.data.current_level < 3 {
            let next = self.data.current_level + 1;
            self.load_level(next, grid);
            self.mode = GameMode::Playing;
        } else {
            self.mode = GameMode::Victory;
        }
    }

    /// Returns to the welcome screen with fresh lives and counters.
    pub fn reset(&mut self)
        requires
            old(self).wf(),
        ensures
            final(self).wf(),
            final(self).mode == GameMode::Welcome,
            final(self).data.lives == 3,
            final(self).data.current_level == 1,
            !final(self).data.has_key,
            final(self).data.keys_collected == 0,
            final(self).data.visited_checkpoints@.len() == 0,
    {
        self.mode = GameMode::Welcome;
        self.data.lives = 3;
        self.data.current_level = 1;
        self.data.has_key = false;
        self.data.keys_collected = 0;
        self.data.visited_checkpoints = Vec::new();
    }

    /// One game-update step: advances the animation and notification
    /// clocks, applies the interaction under the player — emitting exactly
    /// its audio events and notifications — then switches to victory when
    /// the win condition holds (appending the completion event) and to
    /// game over when no lives remain.
    pub fn update_with_audio(&mut self, events: &mut Vec<GameAudioEvent>, block_size: usize)
        requires
            old(self).wf(),
            0 < block_size <= 0x10000,
        ensures
            final(self).wf(),
            final(self).data.animation_time == (if old(self).data.animation_time + 100
                <= COUNTER_CAP {
                old(self).data.animation_time + 100
            } else {
                old(self).data.animation_time as int
            }),
            old(self).data.maze@.len() == 0 ==> {
                &&& final(self).mode == old(self).mode
                &&& final(self).data.maze == old(self).data.maze
                &&& final(events)@ == old(events)@
                &&& unchanged_interaction(*old(self), *final(self))
            },
            old(self).data.maze@.len() > 0 ==> {
                let won = win_condition(*final(self));
                &&& interaction_step(*old(self), *final(self), block_size as int)
                &&& (won ==> final(events)@ == old(events)@ + interaction_events_spec(
                    *old(self),
                    block_size as int,
                ) + seq![GameAudioEvent::LevelComplete])
                &&& (!won ==> final(events)@ == old(events)@ + interaction_events_spec(
                    *old(self),
                    block_size as int,
                ))
                &&& final(self).mode == (if final(self).data.lives <= 0 {
                    GameMode::GameOver
                } else if won {
                    GameMode::Victory
                } else {
                    old(self).mode
                })
            },
    {
        if self.data.animation_time <= COUNTER_CAP - 100 {
            self.data.animation_time = self.data.animation_time + 100;
        }
        self.data.notification_manager.update(16);
        if self.data.maze.len() == 0 {
            return;
        }
        self.check_player_interactions_with_notifications(events, block_size);
        if self.check_win_condition_safe() {
            self.mode = GameMode::Victory;
            events.push(GameAudioEvent::LevelComplete);
            proof {
                assert(events@ =~= old(events)@ + interaction_events_spec(
                    *old(self),
                    block_size as int,
                ) + seq![GameAudioEvent::LevelComplete]);
            }
        }
        if self.data.lives <= 0 {
            self.mode = GameMode::GameOver;
        }
    }

    /// Consumes the interactive cell under the player, with notifications
    /// and audio events: a key increments the key count (unlocking the
    /// exit when enough are held), a trap costs a life and pushes the
    /// player back, an extra life increments lives, a first-visit
    /// checkpoint is recorded, and a blocked exit only notifies. Exactly
    /// the matching events are appended; outside the grid nothing
    /// changes.
    pub fn check_player_interactions_with_notifications(
        &mut self,
        events: &mut Vec<GameAudioEvent>,
        block_size: usize,
    )
        requires
            old(self).wf(),
            0 < block_size <= 0x10000,
        ensures
            final(self).wf(),
            final(self).mode == old(self).mode,
            final(self).data.animation_time == old(self).data.animation_time,
            interaction_step(*old(self), *final(self), block_size as int),
            final(events)@ == old(events)@ + interaction_events_spec(
                *old(self),
                block_size as int,
            ),
    {
        proof {
            assert(old(events)@ + Seq::<GameAudioEvent>::empty() =~= old(events)@);
        }
        let px = self.data.player.x;
        let py = self.data.player.y;
        if px < 0 || py < 0 || self.data.maze.len() == 0 {
            return;
        }
        let cell_sz = (block_size as u64) * (SUB as u64);
        proof {
            assert(2 <= (block_size as u64) * (SUB as u64) <= 0x20000) by (nonlinear_arith)
                requires
                    1 <= block_size as u64 <= 0x10000,
                    SUB == 2,
            ;
        }
        let grid_x = (px as u64) / cell_sz;
        let grid_y = (py as u64) / cell_sz;
        if grid_y >= self.data.maze.len() as u64 {
            return;
        }
        let gy = grid_y as usize;
        let row_len = self.data.maze[gy].len();
        if grid_x >= row_len as u64 {
            return;
        }
        let gx = grid_x as usize;
        let current_cell = self.data.maze[gy][gx];
        proof {
            assert(grid_view(self.data.maze)[gy as int] == self.data.maze@[gy as int]@);
        }
        if current_cell == 'k' {
            self.set_maze_cell(gx, gy, ' ');
            if self.data.keys_collected < COUNTER_CAP {
                self.data.keys_collected = self.data.keys_collected + 1;
            }
            if self.data.keys_collected >= self.data.keys_needed {
                self.data.has_key = true;
            } else {
                self.data.has_key = false;
            }
            events.push(GameAudioEvent::KeyPickup);
            proof {
                assert(events@ =~= old(events)@ + seq![GameAudioEvent::KeyPickup]);
            }
            let kc = self.data.keys_collected;
            let kn = self.data.keys_needed;
            self.data.notification_manager.show_key_collected(kc, kn);
        } else if current_cell == 't' {
            self.set_maze_cell(gx, gy, ' ');
            if self.data.lives > 0 {
                self.data.lives = self.data.lives - 1;
            }
            events.push(GameAudioEvent::TrapTriggered);
            events.push(GameAudioEvent::PlayerHurt);
            proof {
                assert(events@ =~= old(events)@ + seq![
                    GameAudioEvent::TrapTriggered,
                    GameAudioEvent::PlayerHurt,
                ]);
            }
            let lives = self.data.lives;
            self.data.notification_manager.show_life_lost(lives);
            self.data.notification_manager.show_trap_activated();
            self.data.player.x = if px - 20 < 100 {
                100
            } else {
                px - 20
            };
            self.data.player.y = if py - 20 < 100 {
                100
            } else {
                py - 20
            };
        } else if current_cell == 'l' {
            self.set_maze_cell(gx, gy, ' ');
            if self.data.lives < COUNTER_CAP {
                self.data.lives = self.data.lives + 1;
            }
            events.push(GameAudioEvent::KeyPickup);
            proof {
                assert(events@ =~= old(events)@ + seq![GameAudioEvent::KeyPickup]);
            }
            let lives = self.data.lives;
            self.data.notification_manager.show_extra_life(lives);
        } else if current_cell == 'c' {
            if !self.checkpoint_already_visited(gx, gy) {
                self.data.visited_checkpoints.push((gx, gy));
                events.push(GameAudioEvent::CheckpointReached);
                proof {
                    assert(events@ =~= old(events)@ + seq![GameAudioEvent::CheckpointReached]);
                }
                let count = self.data.visited_checkpoints.len();
                let level = self.data.current_level;
                self.data.notification_manager.show_checkpoint_reached(count, level);
            }
        } else if current_cell == 'e' {
            if !self.data.has_key {
                self.data.notification_manager.show_exit_blocked("no_key");
            } else {
                let needed = self.checkpoints_needed();
                if self.data.visited_checkpoints.len() < needed {
                    self.data.notification_manager.show_exit_blocked("no_checkpoints");
                }
            }
        }
    }

    /// Drops every queued notification.
    pub fn clear_notifications(&mut self)
        requires
            old(self).wf(),
        ensures
            final(self).wf(),
            final(self).data.notification_manager.notifications@.len() == 0,
    {
        self.data.notification_manager.clear_all();
    }

    /// One game-update step without the notification and audio side: the
    /// plain interaction under the player, then the victory and game-over
    /// mode switches. The notification queue is untouched.
    pub fn update(&mut self, block_size: usize)
        requires
            old(self).wf(),
            0 < block_size <= 0x10000,
        ensures
            final(self).wf(),
            final(self).data.notification_manager == old(self).data.notification_manager,
            final(self).data.animation_time == (if old(self).data.animation_time + 100
                <= COUNTER_CAP {
                old(self).data.animation_time + 100
            } else {
                old(self).data.animation_time as int
            }),
            old(self).data.maze@.len() == 0 ==> {
                &&& final(self).mode == old(self).mode
                &&& final(self).data.maze == old(self).data.maze
                &&& unchanged_interaction(*old(self), *final(self))
            },
            old(self).data.maze@.len() > 0 ==> {
                let won = win_condition(*final(self));
                &&& interaction_step(*old(self), *final(self), block_size as int)
                &&& final(self).mode == (if final(self).data.lives <= 0 {
                    GameMode::GameOver
                } else if won {
                    GameMode::Victory
                } else {
                    old(self).mode
                })
            },
    {
        if self.data.animation_time <= COUNTER_CAP - 100 {
            self.data.animation_time = self.data.animation_time + 100;
        }
        if self.data.maze.len() == 0 {
            return;
        }
        self.check_player_interactions_simple(block_size);
        if self.check_win_condition_safe() {
            self.mode = GameMode::Victory;
        }
        if self.data.lives <= 0 {
            self.mode = GameMode::GameOver;
        }
    }

    /// Consumes the interactive cell under the player without queueing
    /// notifications or audio events: the plain state effect
    /// `interaction_step` alone.
    fn check_player_interactions_simple(&mut self, block_size: usize)
        requires
            old(self).wf(),
            0 < block_size <= 0x10000,
        ensures
            final(self).wf(),
            final(self).mode == old(self).mode,
            final(self).data.animation_time == old(self).data.animation_time,
            final(self).data.notification_manager == old(self).data.notification_manager,
            interaction_step(*old(self), *final(self), block_size as int),
    {
        let px = self.data.player.x;
        let py = self.data.player.y;
        if px < 0 || py < 0 || self.data.maze.len() == 0 {
            return;
        }
        let cell_sz = (block_size as u64) * (SUB as u64);
        proof {
            assert(2 <= (block_size as u64) * (SUB as u64) <= 0x20000) by (nonlinear_arith)
                requires
                    1 <= block_size as u64 <= 0x10000,
                    SUB == 2,
            ;
        }
        let grid_x = (px as u64) / cell_sz;
        let grid_y = (py as u64) / cell_sz;
        if grid_y >= self.data.maze.len() as u64 {
            return;
        }
        let gy = grid_y as usize;
        let row_len = self.data.maze[gy].len();
        if grid_x >= row_len as u64 {
            return;
        }
        let gx = grid_x as usize;
        let current_cell = self.data.maze[gy][gx];
        proof {
            assert(grid_view(self.data.maze)[gy as int] == self.data.maze@[gy as int]@);
        }
        if current_cell == 'k' {
            self.set_maze_cell(gx, gy, ' ');
            if self.data.keys_collected < COUNTER_CAP {
                self.data.keys_collected = self.data.keys_collected + 1;
            }
            if self.data.keys_collected >= self.data.keys_needed {
                self.data.has_key = true;
            } else {
                self.data.has_key = false;
            }
        } else if current_cell == 't' {
            self.set_maze_cell(gx, gy, ' ');
            if self.data.lives > 0 {
                self.data.lives = self.data.lives - 1;
            }
            self.data.player.x = if px - 20 < 100 {
                100
            } else {
                px - 20
            };
            self.data.player.y = if py - 20 < 100 {
                100
            } else {
                py - 20
            };
        } else if current_cell == 'l' {
            self.set_maze_cell(gx, gy, ' ');
            if self.data.lives < COUNTER_CAP {
                self.data.lives = self.data.lives + 1;
            }
        } else if current_cell == 'c' {
            if !self.checkpoint_already_visited(gx, gy) {
                self.data.visited_checkpoints.push((gx, gy));
            }
        }
    }

    /// The checkpoints the current level demands.
    fn checkpoints_needed(&self) -> (r: usize)
        ensures
            r == checkpoints_needed_spec(self.data.current_level as int),
    {
        if self.data.current_level == 1 {
            0
        } else if self.data.current_level == 2 {
            1
        } else if self.data.current_level == 3 {
            2
        } else {
            0
        }
    }

    /// Whether a checkpoint cell was already visited.
    fn checkpoint_already_visited(&self, gx: usize, gy: usize) -> (r: bool)
        ensures
            r == checkpoint_visited(self.data.visited_checkpoints@, gx as int, gy as int),
    {
        let n = self.data.visited_checkpoints.len();
        let mut i: usize = 0;
        while i < n
            invariant
                n == self.data.visited_checkpoints@.len(),
                0 <= i <= n,
                forall|j: int|
                    0 <= j < i ==> #[trigger] self.data.visited_checkpoints@[j] != (gx, gy),
            decreases n - i,
        {
            let p = self.data.visited_checkpoints[i];
            if p.0 == gx && p.1 == gy {
                return true;
            }
            i = i + 1;
        }
        false
    }

    /// Overwrites one maze cell when it lies inside the stored rows.
    fn set_maze_cell(&mut self, gx: usize, gy: usize, c: char)
        requires
            old(self).wf(),
            gy < old(self).data.maze@.len(),
            gx < old(self).data.maze@[gy as int]@.len(),
        ensures
            final(self).wf(),
            grid_view(final(self).data.maze) == grid_view(old(self).data.maze).update(
                gy as int,
                grid_view(old(self).data.maze)[gy as int].update(gx as int, c),
            ),
            final(self).mode == old(self).mode,
            final(self).data.player == old(self).data.player,
            final(self).data.current_level == old(self).data.current_level,
            final(self).data.lives == old(self).data.lives,
            final(self).data.keys_collected == old(self).data.keys_collected,
            final(self).data.keys_needed == old(self).data.keys_needed,
            final(self).data.has_key == old(self).data.has_key,
            final(self).data.visited_checkpoints == old(self).data.visited_checkpoints,
            final(self).data.animation_time == old(self).data.animation_time,
            final(self).data.notification_manager == old(self).data.notification_manager,
    {
        let ghost g0 = grid_view(self.data.maze);
        let row: &mut Vec<char> = &mut self.data.maze[gy];
        row.set(gx, c);
        proof {
            assert(grid_view(self.data.maze) =~= g0.update(
                gy as int,
                g0[gy as int].update(gx as int, c),
            ));
        }
    }

    /// Whether a world point lies on a walkable cell, at the standard
    /// cell size of 100 world units.
    pub fn is_position_safe(&self, x: i64, y: i64) -> (r: bool)
        requires
            -0x4002_0000 <= x <= 0x4002_0000,
            -0x4002_0000 <= y <= 0x4002_0000,
        ensures
            r == pos_walkable(grid_view(self.data.maze), x as int, y as int, 100),
    {
        proof {
            reveal(pos_walkable);
        }
        if x < 0 || y < 0 {
            return false;
        }
        if self.data.maze.len() == 0 {
            return false;
        }
        let grid_x = (x as u64) / 200;
        let grid_y = (y as u64) / 200;
        if grid_y >= self.data.maze.len() as u64 {
            return false;
        }
        let gy = grid_y as usize;
        let row = &self.data.maze[gy];
        if grid_x >= row.len() as u64 {
            return false;
        }
        let cell = row[grid_x as usize];
        proof {
            assert(grid_view(self.data.maze)[gy as int] == self.data.maze@[gy as int]@);
        }
        cell == ' ' || cell == 'k' || cell == 't' || cell == 'l' || cell == 'c' || cell == 'e'
    }

    /// Whether the whole player body may stand at a world point, probed
    /// at nine points, at the standard cell size.
    pub fn can_player_move_to(&self, x: i64, y: i64, _block_size: usize) -> (r: bool)
        requires
            self.wf(),
            -0x4000_0000 <= x <= 0x4000_0000,
            -0x4000_0000 <= y <= 0x4000_0000,
        ensures
            r == body_safe(grid_view(self.data.maze), x as int, y as int, self.data.player.radius as int),
    {
        let radius = self.data.player.radius;
        self.can_move_to_safe(x, y, radius)
    }

    /// Whether the win condition holds: the player stands on the exit
    /// with all keys and the level's checkpoints.
    pub fn check_win_condition_safe(&self) -> (r: bool)
        requires
            self.wf(),
        ensures
            r == win_condition(*self),
    {
        let px = self.data.player.x;
        let py = self.data.player.y;
        if px < 0 || py < 0 {
            return false;
        }
        if self.data.maze.len() == 0 {
            return false;
        }
        let grid_x = (px as u64) / 200;
        let grid_y = (py as u64) / 200;
        if grid_y >= self.data.maze.len() as u64 {
            return false;
        }
        let gy = grid_y as usize;
        let row = &self.data.maze[gy];
        if grid_x >= row.len() as u64 {
            return false;
        }
        let cell = row[grid_x as usize];
        proof {
            assert(grid_view(self.data.maze)[gy as int] == self.data.maze@[gy as int]@);
        }
        if cell == 'e' {
            let needed = self.checkpoints_needed();
            let has_checkpoints = self.data.visited_checkpoints.len() >= needed;
            return self.data.has_key && has_checkpoints;
        }
        false
    }

    /// Reloads the current level with the given grid.
    pub fn emergency_reset(&mut self, grid: Maze)
        requires
            old(self).wf(),
            grid@.len() <= 0x1000,
            forall|i: int| 0 <= i < grid@.len() ==> (#[trigger] grid@[i])@.len() <= 0x1000,
        ensures
            final(self).wf(),
            final(self).data.current_level == old(self).data.current_level,
    {
        let level = self.data.current_level;
        self.load_level(level, grid);
    }

    /// Moves the player to a nearby safe spot when the whole body does
    /// not fit where it stands.
    fn validate_player_position(&mut self)
        requires
            old(self).wf(),
        ensures
            final(self).wf(),
            final(self).mode == old(self).mode,
            final(self).data.maze == old(self).data.maze,
            final(self).data.current_level == old(self).data.current_level,
            final(self).data.lives == old(self).data.lives,
            final(self).data.keys_collected == old(self).data.keys_collected,
            final(self).data.keys_needed == old(self).data.keys_needed,
            final(self).data.has_key == old(self).data.has_key,
            final(self).data.visited_checkpoints == old(self).data.visited_checkpoints,
    {
        let px = self.data.player.x;
        let py = self.data.player.y;
        let radius = self.data.player.radius;
        if !self.can_move_to_safe(px, py, radius) {
            match self.find_nearest_safe_position(px, py, radius) {
                Some(p) => {
                    self.data.player.x = p.0;
                    self.data.player.y = p.1;
                },
                None => {
                    self.data.player.x = 300;
                    self.data.player.y = 300;
                },
            }
        }
    }

    /// Whether the whole player body fits at a world point, at the
    /// standard cell size.
    pub fn can_move_to_safe(&self, x: i64, y: i64, radius: i64) -> (r: bool)
        requires
            -0x4000_0000 <= x <= 0x4000_0000,
            -0x4000_0000 <= y <= 0x4000_0000,
            0 <= radius <= 0x10000,
        ensures
            r == body_safe(grid_view(self.data.maze), x as int, y as int, radius as int),
    {
        proof {
            reveal(body_safe);
        }
        let d = radius * 7 / 10;
        proof {
            vstd::arithmetic::div_mod::lemma_div_pos_is_pos(radius as int * 7, 10);
            vstd::arithmetic::div_mod::lemma_div_is_ordered(radius as int * 7, radius as int * 10, 10);
            assert((radius as int * 10) / 10 == radius as int) by (nonlinear_arith);
        }
        self.is_position_safe(x, y) && self.is_position_safe(x + radius, y)
            && self.is_position_safe(x - radius, y) && self.is_position_safe(x, y + radius)
            && self.is_position_safe(x, y - radius) && self.is_position_safe(x + d, y + d)
            && self.is_position_safe(x - d, y - d) && self.is_position_safe(x + d, y - d)
            && self.is_position_safe(x - d, y + d)
    }

    /// Searches the rings of grid cells around a point, nearest first, for
    /// a cell center where the body fits; positions assume the standard
    /// cell size.
    fn find_nearest_safe_position(&self, x: i64, y: i64, radius: i64) -> (r: Option<(i64, i64)>)
        requires
            -0x4000_0000 <= x <= 0x4000_0000,
            -0x4000_0000 <= y <= 0x4000_0000,
            0 <= radius <= 0x10000,
        ensures
            r is Some ==> {
                &&& body_safe(
                    grid_view(self.data.maze),
                    r.unwrap().0 as int,
                    r.unwrap().1 as int,
                    radius as int,
                )
                &&& 0 <= r.unwrap().0 <= 0x4000_0000
                &&& 0 <= r.unwrap().1 <= 0x4000_0000
            },
    {
        if self.data.maze.len() == 0 {
            return None;
        }
        if x < 0 || y < 0 {
            return None;
        }
        let start_grid_x = (x / 200) as i64;
        let start_grid_y = (y / 200) as i64;
        let mut search_radius: i64 = 1;
        while search_radius <= 5
            invariant
                1 <= search_radius <= 6,
                -0x4000_0000 <= x <= 0x4000_0000,
                -0x4000_0000 <= y <= 0x4000_0000,
                0 <= radius <= 0x10000,
                0 <= start_grid_x <= 0x600000,
                0 <= start_grid_y <= 0x600000,
            decreases 6 - search_radius,
        {
            let mut dy = -search_radius;
            while dy <= search_radius
                invariant
                    1 <= search_radius <= 5,
                    -5 <= dy <= 6,
                    -0x4000_0000 <= x <= 0x4000_0000,
                    -0x4000_0000 <= y <= 0x4000_0000,
                    0 <= radius <= 0x10000,
                    0 <= start_grid_x <= 0x600000,
                    0 <= start_grid_y <= 0x600000,
                decreases search_radius - dy + 1,
            {
                let mut dx = -search_radius;
                while dx <= search_radius
                    invariant
                        1 <= search_radius <= 5,
                        -5 <= dy <= 5,
                        -5 <= dx <= 6,
                        -0x4000_0000 <= x <= 0x4000_0000,
                        -0x4000_0000 <= y <= 0x4000_0000,
                        0 <= radius <= 0x10000,
                        0 <= start_grid_x <= 0x600000,
                        0 <= start_grid_y <= 0x600000,
                    decreases search_radius - dx + 1,
                {
                    let check_x = start_grid_x + dx;
                    let check_y = start_grid_y + dy;
                    if check_x >= 0 && check_y >= 0 && check_x <= 0x200000 && check_y <= 0x200000 {
                        let world_x = check_x * 200 + 100;
                        let world_y = check_y * 200 + 100;
                        if self.can_move_to_safe(world_x, world_y, radius) {
                            return Some((world_x, world_y));
                        }
                    }
                    dx = dx + 1;
                }
                dy = dy + 1;
            }
            search_radius = search_radius + 1;
        }
        None
    }
}

/// Nothing of the interaction-facing state changed.
pub open spec fn unchanged_interaction(a: GameState, b: GameState) -> bool {
    &&& b.data.maze == a.data.maze
    &&& b.data.lives == a.data.lives
    &&& b.data.keys_collected == a.data.keys_collected
    &&& b.data.has_key == a.data.has_key
    &&& b.data.player.x == a.data.player.x
    &&& b.data.player.y == a.data.player.y
    &&& b.data.visited_checkpoints == a.data.visited_checkpoints
}

/// A counter incremented, saturating at the cap.
pub open spec fn capped_inc(v: int) -> int {
    if v < COUNTER_CAP {
        v + 1
    } else {
        v
    }
}

/// Whether the whole player body fits at a world point, at the standard
/// cell size of 100 world units.
#[verifier::opaque]
pub open spec fn body_safe(g: Seq<Seq<char>>, x: int, y: int, radius: int) -> bool {
    let d = radius * 7 / 10;
    &&& pos_walkable(g, x, y, 100)
    &&& pos_walkable(g, x + radius, y, 100)
    &&& pos_walkable(g, x - radius, y, 100)
    &&& pos_walkable(g, x, y + radius, 100)
    &&& pos_walkable(g, x, y - radius, 100)
    &&& pos_walkable(g, x + d, y + d, 100)
    &&& pos_walkable(g, x - d, y - d, 100)
    &&& pos_walkable(g, x + d, y - d, 100)
    &&& pos_walkable(g, x - d, y + d, 100)
}

/// The win condition: standing on the exit cell with every key and the
/// level's checkpoints.
pub open spec fn win_condition(s: GameState) -> bool {
    let g = grid_view(s.data.maze);
    let px = s.data.player.x as int;
    let py = s.data.player.y as int;
    let gx = px / 200;
    let gy = py / 200;
    &&& px >= 0
    &&& py >= 0
    &&& g.len() > 0
    &&& gy < g.len()
    &&& gx < g[gy].len()
    &&& g[gy][gx] == 'e'
    &&& s.data.has_key
    &&& s.data.visited_checkpoints.len() >= checkpoints_needed_spec(s.data.current_level as int)
}

/// The fallback level used when a level grid cannot be used: a fully
/// enclosed maze of uniform width holding a key, an extra life and an
/// exit.
pub fn create_emergency_maze() -> (r: Maze)
    ensures
        r@.len() == 16,
        forall|i: int| 0 <= i < r@.len() ==> (#[trigger] r@[i])@.len() == 19,
{
    let mut rows: Maze = Vec::new();
    rows.push(row_from_str("###################"));
    rows.push(row_from_str("#                 #"));
    rows.push(row_from_str("# ############### #"));
    rows.push(row_from_str("#                 #"));
    rows.push(row_from_str("# ####### # # #####"));
    rows.push(row_from_str("# #     # # #   ###"));
    rows.push(row_from_str("# # ### # # ### ###"));
    rows.push(row_from_str("# #   # # #   # ###"));
    rows.push(row_from_str("# ### # # ### # ###"));
    rows.push(row_from_str("# #k  # #   # # ###"));
    rows.push(row_from_str("# ##### ### # # ###"));
    rows.push(row_from_str("#           # # ###"));
    rows.push(row_from_str("############# # ###"));
    rows.push(row_from_str("#             # ###"));
    rows.push(row_from_str("#           l  ####"));
    rows.push(row_from_str("##############e####"));
    proof {
        reveal_strlit("###################");
        reveal_strlit("#                 #");
        reveal_strlit("# ############### #");
        reveal_strlit("# ####### # # #####");
        reveal_strlit("# #     # # #   ###");
        reveal_strlit("# # ### # # ### ###");
        reveal_strlit("# #   # # #   # ###");
        reveal_strlit("# ### # # ### # ###");
        reveal_strlit("# #k  # #   # # ###");
        reveal_strlit("# ##### ### # # ###");
        reveal_strlit("#           # # ###");
        reveal_strlit("############# # ###");
        reveal_strlit("#             # ###");
        reveal_strlit("#           l  ####");
        reveal_strlit("##############e####");
        assert forall|i: int| 0 <= i < rows@.len() implies (#[trigger] rows@[i])@.len() == 19 by {
        }
    }
    rows
}

} // verus!
