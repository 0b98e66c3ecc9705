//! The sprite catalog, animator and compositor: world-placed billboard
//! sprites keyed by interactive maze symbols, advanced by closed-form
//! animation, projected by bearing and distance, and painted through the
//! per-column depth buffer so walls always occlude them correctly.

use vstd::arithmetic::div_mod::{lemma_div_is_ordered, lemma_div_pos_is_pos};
use vstd::arithmetic::mul::lemma_mul_inequality;
use vstd::prelude::*;

use crate::angle::{
    angle_mod, atan2_spec, atan2_angle, signed_angle, sin_spec, cos_spec, sin_angle, cos_angle,
    to_signed_angle, wrap_angle, ANGLE_HALF, ANGLE_TURN, TRIG_ONE,
};
use crate::caster::TEX_ONE;
use crate::cells::is_interactive_sym;
use crate::framebuffer::{Color, Framebuffer};
use crate::maze::MazeData;
use crate::num::{div_toward_zero, div_trunc, isqrt, sqrt_nat};
use crate::player::Player;
use crate::SUB;

verus! {

/// The animation clock cap: clocks wrap to zero here so the closed-form
/// animation arithmetic never overflows.
pub const ANIMATION_CLOCK_CAP: i64 = 0x10_0000_0000;

/// One radian in angle units, the factor between the animation formulas'
/// radian rates and the integer angle scale.
pub const RADIAN: i64 = 10430;

/// The five sprite kinds, bound one to one to the interactive maze
/// symbols.
#[derive(Debug, Clone, Copy, PartialEq, Eq, Hash, Structural)]
pub enum SpriteType {
    KeyGold,
    Checkpoint,
    ExitPortal,
    ExtraLife,
    TrapSpike,
}

/// The sprite kind an interactive symbol spawns, if any.
pub open spec fn sprite_type_of(c: char) -> Option<SpriteType> {
    if c == 'k' {
        Some(SpriteType::KeyGold)
    } else if c == 'c' {
        Some(SpriteType::Checkpoint)
    } else if c == 'e' {
        Some(SpriteType::ExitPortal)
    } else if c == 'l' {
        Some(SpriteType::ExtraLife)
    } else if c == 't' {
        Some(SpriteType::TrapSpike)
    } else {
        None
    }
}

/// The per-mille base scale of a sprite kind.
pub open spec fn base_scale_spec(t: SpriteType) -> int {
    match t {
        SpriteType::KeyGold => 800,
        SpriteType::Checkpoint => 1200,
        SpriteType::ExitPortal => 1500,
        SpriteType::ExtraLife => 900,
        SpriteType::TrapSpike => 1000,
    }
}

impl SpriteType {
    /// The sprite kind an interactive symbol spawns.
    pub fn from_char(c: char) -> (r: Option<SpriteType>)
        ensures
            r == sprite_type_of(c),
            r.is_some() == is_interactive_sym(c),
    {
        match c {
            'k' => Some(SpriteType::KeyGold),
            'c' => Some(SpriteType::Checkpoint),
            'e' => Some(SpriteType::ExitPortal),
            'l' => Some(SpriteType::ExtraLife),
            't' => Some(SpriteType::TrapSpike),
            _ => None,
        }
    }

    /// The asset path of this kind's bitmap.
    pub fn get_file_path(&self) -> (r: &'static str)
    {
        match self {
            SpriteType::KeyGold => "assets/Sprites/key_gold.png",
            SpriteType::Checkpoint => "assets/Sprites/checkpoint.png",
            SpriteType::ExitPortal => "assets/Sprites/exit_portal.png",
            SpriteType::ExtraLife => "assets/Sprites/extra_life.png",
            SpriteType::TrapSpike => "assets/Sprites/trap_spike.png",
        }
    }

    /// The flat color used when no bitmap is loaded for this kind.
    pub fn get_fallback_color(&self) -> (r: Color)
        ensures
            r == fallback_color_spec(*self),
    {
        match self {
            SpriteType::KeyGold => Color::new(255, 203, 0, 255),
            SpriteType::Checkpoint => Color::new(0, 255, 255, 255),
            SpriteType::ExitPortal => Color::new(0, 228, 48, 255),
            SpriteType::ExtraLife => Color::new(200, 122, 255, 255),
            SpriteType::TrapSpike => Color::new(230, 41, 55, 255),
        }
    }

    /// The per-mille base scale of this kind.
    pub fn get_base_scale(&self) -> (r: i64)
        ensures
            r == base_scale_spec(*self),
            800 <= r <= 1500,
    {
        match self {
            SpriteType::KeyGold => 800,
            SpriteType::Checkpoint => 1200,
            SpriteType::ExitPortal => 1500,
            SpriteType::ExtraLife => 900,
            SpriteType::TrapSpike => 1000,
        }
    }

    /// Whether this kind animates; only the trap is static.
    pub fn is_animated(&self) -> (r: bool)
        ensures
            r == (*self != SpriteType::TrapSpike),
    {
        match self {
            SpriteType::KeyGold | SpriteType::Checkpoint | SpriteType::ExitPortal
                | SpriteType::ExtraLife => true,
            SpriteType::TrapSpike => false,
        }
    }
}

/// The flat fallback color of a sprite kind.
pub open spec fn fallback_color_spec(t: SpriteType) -> Color {
    match t {
        SpriteType::KeyGold => Color { r: 255, g: 203, b: 0, a: 255 },
        SpriteType::Checkpoint => Color { r: 0, g: 255, b: 255, a: 255 },
        SpriteType::ExitPortal => Color { r: 0, g: 228, b: 48, a: 255 },
        SpriteType::ExtraLife => Color { r: 200, g: 122, b: 255, a: 255 },
        SpriteType::TrapSpike => Color { r: 230, g: 41, b: 55, a: 255 },
    }
}

/// One world-placed sprite instance: kind, position in subunits, animated
/// per-mille scale, rotation in angle units, the active flag cleared when
/// the sprite is consumed, and its animation clock in milliseconds.
#[derive(Debug, Clone, PartialEq, Eq, Structural)]
pub struct Sprite {
    pub sprite_type: SpriteType,
    pub world_x: i64,
    pub world_y: i64,
    pub scale: i64,
    pub rotation: i64,
    pub active: bool,
    pub animation_time: i64,
}

/// The scale a kind's pulse yields at clock `t` ms: the base scale plus a
/// sinusoidal swing, each kind with its own rate and amplitude.
pub open spec fn pulse_scale_spec(t: SpriteType, clock: int) -> int {
    match t {
        SpriteType::KeyGold => 800 + div_trunc(
            100 * sin_spec(angle_mod(clock * 2 * (RADIAN as int) / 1000)),
            TRIG_ONE as int,
        ),
        SpriteType::Checkpoint => 1200 + div_trunc(
            200 * sin_spec(angle_mod(clock * 4 * (RADIAN as int) / 1000)),
            TRIG_ONE as int,
        ),
        SpriteType::ExitPortal => 1500 + div_trunc(
            300 * sin_spec(angle_mod(clock * 3 * (RADIAN as int) / 1000)),
            TRIG_ONE as int,
        ),
        SpriteType::ExtraLife => 900 + div_trunc(
            150 * sin_spec(angle_mod(clock * 6 * (RADIAN as int) / 1000)),
            TRIG_ONE as int,
        ),
        SpriteType::TrapSpike => 1000,
    }
}

/// The animation clock after one step: advanced by the delta, wrapping to
/// zero at the cap.
pub open spec fn advanced_clock(s: Sprite, delta: int) -> int {
    if s.animation_time + delta <= ANIMATION_CLOCK_CAP {
        s.animation_time + delta
    } else {
        0
    }
}

/// The sprite after one animation step: an inactive or static sprite is
/// unchanged; an active animated one carries the advanced clock, the
/// pulse scale of that clock, and the spin rotation when its kind spins.
pub open spec fn updated_sprite_spec(s: Sprite, delta: int) -> Sprite {
    if !s.active || s.sprite_type == SpriteType::TrapSpike {
        s
    } else {
        let clock = advanced_clock(s, delta);
        Sprite {
            sprite_type: s.sprite_type,
            world_x: s.world_x,
            world_y: s.world_y,
            scale: pulse_scale_spec(s.sprite_type, clock) as i64,
            rotation: if spins(s.sprite_type) {
                spin_rotation_spec(s.sprite_type, clock) as i64
            } else {
                s.rotation
            },
            active: s.active,
            animation_time: clock as i64,
        }
    }
}

/// Whether a kind spins: the key and the portal rotate, the others keep
/// whatever rotation they have.
pub open spec fn spins(t: SpriteType) -> bool {
    t == SpriteType::KeyGold || t == SpriteType::ExitPortal
}

/// The rotation a spinning kind reaches at clock `t` ms: the key turns at
/// 45 degrees per second, the portal at 30, reduced into a turn.
pub open spec fn spin_rotation_spec(t: SpriteType, clock: int) -> int {
    match t {
        SpriteType::KeyGold => angle_mod(clock * 8192 / 1000),
        SpriteType::ExitPortal => angle_mod(clock * 5461 / 1000),
        _ => 0,
    }
}

impl Sprite {
    /// Well-formedness: the position, scale and clocks stay in the ranges
    /// the projection arithmetic needs.
    pub open spec fn wf(self) -> bool {
        &&& -0x4000_0000 <= self.world_x <= 0x4000_0000
        &&& -0x4000_0000 <= self.world_y <= 0x4000_0000
        &&& 0 <= self.scale <= 2000
        &&& 0 <= self.rotation < ANGLE_TURN
        &&& 0 <= self.animation_time <= ANIMATION_CLOCK_CAP
    }

    /// A fresh, active sprite at a world position, at its kind's base
    /// scale, unrotated, clock at zero.
    pub fn new(sprite_type: SpriteType, world_x: i64, world_y: i64) -> (r: Sprite)
        requires
            -0x4000_0000 <= world_x <= 0x4000_0000,
            -0x4000_0000 <= world_y <= 0x4000_0000,
        ensures
            r.wf(),
            r == (Sprite {
                sprite_type,
                world_x,
                world_y,
                scale: base_scale_spec(sprite_type) as i64,
                rotation: 0 as i64,
                active: true,
                animation_time: 0 as i64,
            }),
    {
        Sprite {
            sprite_type,
            world_x,
            world_y,
            scale: sprite_type.get_base_scale(),
            rotation: 0,
            active: true,
            animation_time: 0,
        }
    }

    /// Advances the animation clock by `delta_ms` (wrapping at the clock
    /// cap) and recomputes scale and rotation from the closed-form pulse
    /// and spin; inactive and static sprites do not change. The result is
    /// exactly `updated_sprite_spec`.
    #[verifier::rlimit(100)]
    pub fn update(&mut self, delta_ms: i64)
        requires
            old(self).wf(),
            0 <= delta_ms <= 1000000,
        ensures
            final(self).wf(),
            *final(self) == updated_sprite_spec(*old(self), delta_ms as int),
    {
        if !self.active || !self.sprite_type.is_animated() {
            return;
        }
        let clock = if self.animation_time + delta_ms <= ANIMATION_CLOCK_CAP {
            self.animation_time + delta_ms
        } else {
            0
        };
        self.animation_time = clock;
        match self.sprite_type {
            SpriteType::KeyGold => {
                self.rotation = wrap_angle(clock * 8192 / 1000);
                self.scale = 800 + pulse_swing(clock, 2, 100);
            },
            SpriteType::Checkpoint => {
                self.scale = 1200 + pulse_swing(clock, 4, 200);
            },
            SpriteType::ExitPortal => {
                self.rotation = wrap_angle(clock * 5461 / 1000);
                self.scale = 1500 + pulse_swing(clock, 3, 300);
            },
            SpriteType::ExtraLife => {
                self.scale = 900 + pulse_swing(clock, 6, 150);
            },
            SpriteType::TrapSpike => {},
        }
    }

    /// The straight-line distance to the player, in subunits: the integer
    /// square root of the squared distance.
    pub fn distance_to_player(&self, player: &Player) -> (r: i64)
        requires
            self.wf(),
            player.wf(),
        ensures
            r as nat == sqrt_nat(sprite_dist_sq(*self, *player) as nat),
            r * r <= sprite_dist_sq(*self, *player),
            sprite_dist_sq(*self, *player) < (r + 1) * (r + 1),
            0 <= r <= 0x1_0000_0000,
    {
        let dx = self.world_x - player.x;
        let dy = self.world_y - player.y;
        proof {
            assert(0 <= dx * dx <= 0x4000_0000_0000_0000 && 0 <= dy * dy
                <= 0x4000_0000_0000_0000) by (nonlinear_arith)
                requires
                    -0x8000_0000 <= dx <= 0x8000_0000,
                    -0x8000_0000 <= dy <= 0x8000_0000,
            ;
        }
        let d2 = (dx * dx) as u64 + (dy * dy) as u64;
        let d = isqrt(d2);
        proof {
            assert(d <= 0x1_0000_0000) by (nonlinear_arith)
                requires
                    d * d <= 0x8000_0000_0000_0000u64,
            ;
        }
        d as i64
    }

    /// Whether the sprite lies within the player's view cone: the bearing
    /// relative to the heading, reduced to `(-ANGLE_HALF, ANGLE_HALF]`,
    /// is at most half the field of view in magnitude.
    pub fn is_visible_to_player(&self, player: &Player) -> (r: bool)
        requires
            self.wf(),
            player.wf(),
        ensures
            r == sprite_visible(*self, *player),
    {
        let dx = self.world_x - player.x;
        let dy = self.world_y - player.y;
        let angle_to_sprite = atan2_angle(dy, dx);
        let relative = to_signed_angle(wrap_angle(angle_to_sprite - player.a));
        let magnitude = if relative >= 0 {
            relative
        } else {
            -relative
        };
        magnitude <= player.fov / 2
    }
}

/// The squared distance between a sprite and the player, in subunits.
pub open spec fn sprite_dist_sq(s: Sprite, p: Player) -> int {
    (s.world_x - p.x) * (s.world_x - p.x) + (s.world_y - p.y) * (s.world_y - p.y)
}

/// The signed bearing of a sprite relative to the player's heading.
pub open spec fn sprite_bearing(s: Sprite, p: Player) -> int {
    signed_angle(angle_mod(atan2_spec(s.world_y - p.y, s.world_x - p.x) - p.a))
}

/// Whether a sprite lies within the player's view cone.
pub open spec fn sprite_visible(s: Sprite, p: Player) -> bool {
    let b = sprite_bearing(s, p);
    (if b >= 0 {
        b
    } else {
        -b
    }) <= p.fov / 2
}

/// A decoded sprite bitmap: raw RGBA bytes with dimensions; samples that
/// fall outside the byte buffer read as fully transparent.
pub struct RealSpriteInfo {
    pub pixels: Vec<u8>,
    pub width: usize,
    pub height: usize,
    pub fallback_color: Color,
}

/// The color a sprite bitmap yields at normalized coordinates, transparent
/// black where the buffer is too short or the image empty.
pub open spec fn sprite_sample_spec(info: RealSpriteInfo, tx: int, ty: int) -> Color {
    if info.width == 0 || info.height == 0 {
        Color { r: 0, g: 0, b: 0, a: 0 }
    } else {
        let x = crate::texture_manager::clamp_tex(tx) * (info.width - 1) / (TEX_ONE as int);
        let y = crate::texture_manager::clamp_tex(ty) * (info.height - 1) / (TEX_ONE as int);
        let idx = (y * info.width + x) * 4;
        if idx + 3 < info.pixels@.len() {
            Color {
                r: info.pixels@[idx],
                g: info.pixels@[idx + 1],
                b: info.pixels@[idx + 2],
                a: info.pixels@[idx + 3],
            }
        } else {
            Color { r: 0, g: 0, b: 0, a: 0 }
        }
    }
}

impl RealSpriteInfo {
    /// Reasonable image dimensions, so index arithmetic stays in range.
    pub open spec fn wf(self) -> bool {
        &&& self.width <= 0x10000
        &&& self.height <= 0x10000
    }

    /// Wraps decoded RGBA bytes.
    pub fn new(pixels: Vec<u8>, width: usize, height: usize, fallback_color: Color) -> (r:
        RealSpriteInfo)
        requires
            width <= 0x10000,
            height <= 0x10000,
        ensures
            r.wf(),
            r == (RealSpriteInfo { pixels, width, height, fallback_color }),
    {
        RealSpriteInfo { pixels, width, height, fallback_color }
    }

    /// Samples the bitmap at normalized coordinates; exactly
    /// `sprite_sample_spec`.
    pub fn get_pixel_color(&self, tx: i64, ty: i64) -> (c: Color)
        requires
            self.wf(),
        ensures
            c == sprite_sample_spec(*self, tx as int, ty as int),
    {
        if self.width == 0 || self.height == 0 {
            return Color { r: 0, g: 0, b: 0, a: 0 };
        }
        let cx = crate::texture_manager::clamp_tex_exec(tx);
        let cy = crate::texture_manager::clamp_tex_exec(ty);
        proof {
            lemma_sprite_coord_bound(cx as int, self.width as int);
            lemma_sprite_coord_bound(cy as int, self.height as int);
        }
        let x = (cx * (self.width as i64 - 1) / TEX_ONE) as u64;
        let y = (cy * (self.height as i64 - 1) / TEX_ONE) as u64;
        proof {
            assert(y * (self.width as u64) + x < 0x1_0000_0000) by (nonlinear_arith)
                requires
                    x < self.width as u64,
                    y < self.height as u64,
                    self.width <= 0x10000,
                    self.height <= 0x10000,
            ;
        }
        let idx = (y * (self.width as u64) + x) * 4;
        if idx + 3 < self.pixels.len() as u64 {
            let i = idx as usize;
            Color {
                r: self.pixels[i],
                g: self.pixels[i + 1],
                b: self.pixels[i + 2],
                a: self.pixels[i + 3],
            }
        } else {
            Color { r: 0, g: 0, b: 0, a: 0 }
        }
    }
}

/// A clamped coordinate scaled by `w - 1` stays below `w`.
proof fn lemma_sprite_coord_bound(c: int, w: int)
    requires
        0 <= c <= TEX_ONE,
        1 <= w <= 0x10000,
    ensures
        0 <= c * (w - 1) / (TEX_ONE as int) < w,
        c * (w - 1) <= 0x10000 * TEX_ONE,
{
    assert(0 <= c * (w - 1) <= TEX_ONE * (w - 1)) by (nonlinear_arith)
        requires
            0 <= c <= TEX_ONE,
            w >= 1,
    ;
    lemma_div_pos_is_pos(c * (w - 1), TEX_ONE as int);
    lemma_div_is_ordered(c * (w - 1), TEX_ONE * (w - 1), TEX_ONE as int);
    assert((TEX_ONE * (w - 1)) / (TEX_ONE as int) == w - 1) by (nonlinear_arith);
    assert(c * (w - 1) <= 0x10000 * TEX_ONE) by (nonlinear_arith)
        requires
            0 <= c <= TEX_ONE,
            1 <= w <= 0x10000,
    ;
}

/// The sprite an interactive cell spawns: its kind's fresh instance,
/// centered in the cell — at `col * cell + cell / 2` world units on each
/// axis, which is exact in subunits.
pub open spec fn make_sprite_spec(c: char, col: int, row: int, block: int) -> Sprite {
    Sprite {
        sprite_type: sprite_type_of(c).unwrap(),
        world_x: (col * block * (SUB as int) + block) as i64,
        world_y: (row * block * (SUB as int) + block) as i64,
        scale: base_scale_spec(sprite_type_of(c).unwrap()) as i64,
        rotation: 0 as i64,
        active: true,
        animation_time: 0 as i64,
    }
}

/// The sprites spawned by the first `n` cells of one row, in column order.
pub open spec fn sprites_of_row(row: Seq<char>, row_idx: int, block: int, n: int) -> Seq<Sprite>
    decreases n,
{
    if n <= 0 {
        Seq::empty()
    } else {
        sprites_of_row(row, row_idx, block, n - 1) + (if is_interactive_sym(row[n - 1]) {
            seq![make_sprite_spec(row[n - 1], n - 1, row_idx, block)]
        } else {
            Seq::empty()
        })
    }
}

/// The sprites spawned by the first `m` rows of a grid, row-major.
pub open spec fn sprites_of_grid(g: Seq<Seq<char>>, block: int, m: int) -> Seq<Sprite>
    decreases m,
{
    if m <= 0 {
        Seq::empty()
    } else {
        sprites_of_grid(g, block, m - 1) + sprites_of_row(g[m - 1], m - 1, block, g[m - 1].len() as int)
    }
}

/// How often symbol `c` occurs among the first `n` cells of a row.
pub open spec fn count_sym_row(row: Seq<char>, c: char, n: int) -> int
    decreases n,
{
    if n <= 0 {
        0
    } else {
        count_sym_row(row, c, n - 1) + (if row[n - 1] == c {
            1int
        } else {
            0int
        })
    }
}

/// How often symbol `c` occurs in the first `m` rows of a grid.
pub open spec fn count_sym_grid(g: Seq<Seq<char>>, c: char, m: int) -> int
    decreases m,
{
    if m <= 0 {
        0
    } else {
        count_sym_grid(g, c, m - 1) + count_sym_row(g[m - 1], c, g[m - 1].len() as int)
    }
}

/// Whether `s` is the sprite of some interactive cell of the grid.
pub open spec fn sprite_from_grid(s: Sprite, g: Seq<Seq<char>>, block: int) -> bool {
    exists|col: int, row: int|
        0 <= row < g.len() && 0 <= col < g[row].len() && is_interactive_sym(#[trigger] g[row][col])
            && s == make_sprite_spec(g[row][col], col, row, block)
}

/// Every sprite of one row's load comes from an interactive cell of that
/// row.
proof fn lemma_row_sprites_placed(g: Seq<Seq<char>>, row_idx: int, block: int, n: int)
    requires
        0 <= row_idx < g.len(),
        0 <= n <= g[row_idx].len(),
    ensures
        forall|i: int|
            0 <= i < sprites_of_row(g[row_idx], row_idx, block, n).len() ==> sprite_from_grid(
                #[trigger] sprites_of_row(g[row_idx], row_idx, block, n)[i],
                g,
                block,
            ),
    decreases n,
{
    if n <= 0 {
    } else {
        lemma_row_sprites_placed(g, row_idx, block, n - 1);
        let prev = sprites_of_row(g[row_idx], row_idx, block, n - 1);
        let cur = sprites_of_row(g[row_idx], row_idx, block, n);
        if is_interactive_sym(g[row_idx][n - 1]) {
            assert(cur[cur.len() - 1] == make_sprite_spec(g[row_idx][n - 1], n - 1, row_idx, block));
            assert(sprite_from_grid(cur[cur.len() - 1], g, block));
        }
        assert forall|i: int| 0 <= i < cur.len() implies sprite_from_grid(
            #[trigger] cur[i],
            g,
            block,
        ) by {
            if i < prev.len() {
                assert(cur[i] == prev[i]);
            }
        }
    }
}

/// Every sprite of a full load comes from an interactive cell of the grid.
pub proof fn lemma_loaded_sprites_placed(g: Seq<Seq<char>>, block: int, m: int)
    requires
        0 <= m <= g.len(),
    ensures
        forall|i: int|
            0 <= i < sprites_of_grid(g, block, m).len() ==> sprite_from_grid(
                #[trigger] sprites_of_grid(g, block, m)[i],
                g,
                block,
            ),
    decreases m,
{
    if m <= 0 {
    } else {
        lemma_loaded_sprites_placed(g, block, m - 1);
        lemma_row_sprites_placed(g, m - 1, block, g[m - 1].len() as int);
        let prev = sprites_of_grid(g, block, m - 1);
        let rows = sprites_of_row(g[m - 1], m - 1, block, g[m - 1].len() as int);
        let cur = sprites_of_grid(g, block, m);
        assert forall|i: int| 0 <= i < cur.len() implies sprite_from_grid(
            #[trigger] cur[i],
            g,
            block,
        ) by {
            if i < prev.len() {
                assert(cur[i] == prev[i]);
            } else {
                assert(cur[i] == rows[i - prev.len()]);
            }
        }
    }
}

/// One row spawns exactly as many sprites as it has interactive cells:
/// the counts of the five interactive symbols, summed.
proof fn lemma_row_sprite_count(row: Seq<char>, row_idx: int, block: int, n: int)
    requires
        0 <= n <= row.len(),
    ensures
        sprites_of_row(row, row_idx, block, n).len() == count_sym_row(row, 'k', n) + count_sym_row(
            row,
            'c',
            n,
        ) + count_sym_row(row, 'e', n) + count_sym_row(row, 'l', n) + count_sym_row(row, 't', n),
    decreases n,
{
    if n <= 0 {
    } else {
        lemma_row_sprite_count(row, row_idx, block, n - 1);
    }
}

/// A grid spawns exactly as many sprites as it has interactive cells.
pub proof fn lemma_grid_sprite_count(g: Seq<Seq<char>>, block: int, m: int)
    requires
        0 <= m <= g.len(),
    ensures
        sprites_of_grid(g, block, m).len() == count_sym_grid(g, 'k', m) + count_sym_grid(
            g,
            'c',
            m,
        ) + count_sym_grid(g, 'e', m) + count_sym_grid(g, 'l', m) + count_sym_grid(g, 't', m),
    decreases m,
{
    if m <= 0 {
    } else {
        lemma_grid_sprite_count(g, block, m - 1);
        lemma_row_sprite_count(g[m - 1], m - 1, block, g[m - 1].len() as int);
    }
}

/// The round trip from maze to sprites: a grid holding exactly one of
/// each interactive symbol loads as exactly five sprites, every one
/// active and centered in its cell — at `col * cell + cell / 2` world
/// units on each axis.
pub proof fn lemma_sprite_load_round_trip(g: Seq<Seq<char>>, block: int)
    requires
        count_sym_grid(g, 'k', g.len() as int) == 1,
        count_sym_grid(g, 'c', g.len() as int) == 1,
        count_sym_grid(g, 'e', g.len() as int) == 1,
        count_sym_grid(g, 'l', g.len() as int) == 1,
        count_sym_grid(g, 't', g.len() as int) == 1,
    ensures
        sprites_of_grid(g, block, g.len() as int).len() == 5,
        forall|i: int|
            0 <= i < 5 ==> (#[trigger] sprites_of_grid(g, block, g.len() as int)[i]).active,
        forall|i: int|
            0 <= i < 5 ==> sprite_from_grid(
                #[trigger] sprites_of_grid(g, block, g.len() as int)[i],
                g,
                block,
            ),
{
    lemma_grid_sprite_count(g, block, g.len() as int);
    lemma_loaded_sprites_placed(g, block, g.len() as int);
    assert forall|i: int| 0 <= i < 5 implies (#[trigger] sprites_of_grid(
        g,
        block,
        g.len() as int,
    )[i]).active by {
        assert(sprite_from_grid(sprites_of_grid(g, block, g.len() as int)[i], g, block));
    }
}

/// The sprite catalog: decoded bitmaps per kind and the live instances
/// loaded from the maze.
pub struct SpriteManager {
    pub real_sprites: Vec<(SpriteType, RealSpriteInfo)>,
    pub sprites: Vec<Sprite>,
}

/// Whether a sprite bitmap is stored for kind `t`; last entry wins.
pub open spec fn sprite_bitmap_index(s: Seq<(SpriteType, RealSpriteInfo)>, t: SpriteType) -> int
    decreases s.len(),
{
    if s.len() == 0 {
        -1
    } else if s.last().0 == t {
        s.len() - 1
    } else {
        sprite_bitmap_index(s.drop_last(), t)
    }
}

impl SpriteManager {
    /// Well-formedness: all instances and bitmaps are within range.
    pub open spec fn wf(self) -> bool {
        &&& forall|i: int| 0 <= i < self.sprites@.len() ==> (#[trigger] self.sprites@[i]).wf()
        &&& forall|i: int|
            0 <= i < self.real_sprites@.len() ==> (#[trigger] self.real_sprites@[i]).1.wf()
    }

    /// An empty catalog: no bitmaps, no instances.
    pub fn new() -> (r: SpriteManager)
        ensures
            r.wf(),
            r.sprites@.len() == 0,
            r.real_sprites@.len() == 0,
    {
        SpriteManager { real_sprites: Vec::new(), sprites: Vec::new() }
    }

    /// Stores a decoded bitmap for a sprite kind; a later call for the
    /// same kind overrides the earlier one.
    pub fn add_real_sprite(&mut self, t: SpriteType, info: RealSpriteInfo)
        requires
            old(self).wf(),
            info.wf(),
        ensures
            final(self).wf(),
            final(self).real_sprites@ == old(self).real_sprites@.push((t, info)),
            final(self).sprites == old(self).sprites,
    {
        self.real_sprites.push((t, info));
    }

    /// Scans every cell of the maze and replaces the sprite set with one
    /// active sprite per interactive cell, centered in its cell: exactly
    /// `sprites_of_grid`.
    pub fn load_sprites_from_maze(&mut self, maze: &MazeData, block_size: usize)
        requires
            old(self).wf(),
            maze.wf(),
            0 < block_size <= 0x10000,
            maze.view_grid().len() <= 0x2000,
            forall|i: int|
                0 <= i < maze.view_grid().len() ==> (#[trigger] maze.view_grid()[i]).len() <= 0x2000,
        ensures
            final(self).wf(),
            final(self).sprites@ == sprites_of_grid(
                maze.view_grid(),
                block_size as int,
                maze.view_grid().len() as int,
            ),
            final(self).real_sprites == old(self).real_sprites,
    {
        let ghost g = maze.view_grid();
        self.sprites = Vec::new();
        let height = maze.grid.len();
        let mut row_idx: usize = 0;
        while row_idx < height
            invariant
                self.wf(),
                maze.wf(),
                g == maze.view_grid(),
                height == g.len(),
                g.len() <= 0x2000,
                forall|i: int| 0 <= i < g.len() ==> (#[trigger] g[i]).len() <= 0x2000,
                0 < block_size <= 0x10000,
                0 <= row_idx <= height,
                self.sprites@ == sprites_of_grid(g, block_size as int, row_idx as int),
                self.real_sprites == old(self).real_sprites,
            decreases height - row_idx,
        {
            let row_len = maze.grid[row_idx].len();
            proof {
                assert(g[row_idx as int] == maze.grid@[row_idx as int]@);
            }
            let mut col: usize = 0;
            while col < row_len
                invariant
                    self.wf(),
                    maze.wf(),
                    g == maze.view_grid(),
                    height == g.len(),
                    g.len() <= 0x2000,
                    row_idx < height,
                    g[row_idx as int] == maze.grid@[row_idx as int]@,
                    row_len == g[row_idx as int].len(),
                    row_len <= 0x2000,
                    0 < block_size <= 0x10000,
                    0 <= col <= row_len,
                    self.sprites@ == sprites_of_grid(g, block_size as int, row_idx as int)
                        + sprites_of_row(g[row_idx as int], row_idx as int, block_size as int, col as int),
                    self.real_sprites == old(self).real_sprites,
                decreases row_len - col,
            {
                let cell = maze.grid[row_idx][col];
                if let Some(sprite_type) = SpriteType::from_char(cell) {
                    proof {
                        assert(col * block_size * SUB + block_size <= 0x4000_0000)
                            by (nonlinear_arith)
                            requires
                                0 <= col <= 0x1FFF,
                                0 < block_size <= 0x10000,
                                SUB == 2,
                        ;
                        assert(row_idx * block_size * SUB + block_size <= 0x4000_0000)
                            by (nonlinear_arith)
                            requires
                                0 <= row_idx <= 0x1FFF,
                                0 < block_size <= 0x10000,
                                SUB == 2,
                        ;
                    }
                    let world_x = (col as i64) * (block_size as i64) * SUB + block_size as i64;
                    let world_y = (row_idx as i64) * (block_size as i64) * SUB + block_size as i64;
                    let sprite = Sprite::new(sprite_type, world_x, world_y);
                    self.sprites.push(sprite);
                    proof {
                        assert(sprite == make_sprite_spec(
                            cell,
                            col as int,
                            row_idx as int,
                            block_size as int,
                        ));
                        assert(self.sprites@ =~= sprites_of_grid(g, block_size as int, row_idx as int)
                            + sprites_of_row(
                            g[row_idx as int],
                            row_idx as int,
                            block_size as int,
                            col + 1,
                        ));
                    }
                } else {
                    proof {
                        assert(self.sprites@ =~= sprites_of_grid(g, block_size as int, row_idx as int)
                            + sprites_of_row(
                            g[row_idx as int],
                            row_idx as int,
                            block_size as int,
                            col + 1,
                        ));
                    }
                }
                col = col + 1;
            }
            proof {
                assert(self.sprites@ =~= sprites_of_grid(g, block_size as int, row_idx + 1));
            }
            row_idx = row_idx + 1;
        }
    }

    /// Advances every sprite's animation by `delta_ms`: afterwards each
    /// list entry is exactly `updated_sprite_spec` of its old value — the
    /// active animated ones advanced, the inactive and static ones
    /// unchanged — with length and order kept.
    pub fn update_sprites(&mut self, delta_ms: i64)
        requires
            old(self).wf(),
            0 <= delta_ms <= 1000000,
        ensures
            final(self).wf(),
            final(self).sprites@.len() == old(self).sprites@.len(),
            final(self).real_sprites == old(self).real_sprites,
            forall|i: int|
                0 <= i < old(self).sprites@.len() ==> #[trigger] final(self).sprites@[i]
                    == updated_sprite_spec(old(self).sprites@[i], delta_ms as int),
    {
        let n = self.sprites.len();
        let mut i: usize = 0;
        while i < n
            invariant
                self.wf(),
                n == self.sprites@.len(),
                n == old(self).sprites@.len(),
                0 <= i <= n,
                0 <= delta_ms <= 1000000,
                self.real_sprites == old(self).real_sprites,
                forall|j: int| i <= j < n ==> #[trigger] self.sprites@[j] == old(self).sprites@[j],
                forall|j: int|
                    0 <= j < i ==> #[trigger] self.sprites@[j] == updated_sprite_spec(
                        old(self).sprites@[j],
                        delta_ms as int,
                    ),
            decreases n - i,
        {
            let sprite: &mut Sprite = &mut self.sprites[i];
            sprite.update(delta_ms);
            i = i + 1;
        }
    }

    /// How many sprites are still active.
    pub fn sprite_count(&self) -> (r: usize)
        ensures
            r == active_count(self.sprites@, self.sprites@.len() as int),
    {
        let n = self.sprites.len();
        proof {
            lemma_active_count_bound(self.sprites@, n as int);
        }
        let mut count: usize = 0;
        let mut i: usize = 0;
        while i < n
            invariant
                n == self.sprites@.len(),
                0 <= i <= n,
                count == active_count(self.sprites@, i as int),
                count <= i,
            decreases n - i,
        {
            proof {
                lemma_active_count_bound(self.sprites@, i as int);
            }
            if self.sprites[i].active {
                count = count + 1;
            }
            i = i + 1;
        }
        count
    }

    /// Deactivates the first active sprite within `tolerance` of the
    /// world point on both axes, and reports its kind; `None` when no
    /// active sprite is that close.
    pub fn remove_sprite_at(&mut self, world_x: i64, world_y: i64, tolerance: i64) -> (r: Option<
        SpriteType,
    >)
        requires
            old(self).wf(),
            -0x4000_0000 <= world_x <= 0x4000_0000,
            -0x4000_0000 <= world_y <= 0x4000_0000,
            0 <= tolerance <= 0x4000_0000,
        ensures
            final(self).wf(),
            final(self).real_sprites == old(self).real_sprites,
            ({
                let idx = first_hit(old(self).sprites@, world_x as int, world_y as int, tolerance as int, 0);
                if idx >= 0 {
                    &&& r == Some(old(self).sprites@[idx].sprite_type)
                    &&& final(self).sprites@ == old(self).sprites@.update(
                        idx,
                        Sprite { active: false, ..old(self).sprites@[idx] },
                    )
                } else {
                    &&& r is None
                    &&& final(self).sprites == old(self).sprites
                }
            }),
    {
        let n = self.sprites.len();
        let mut i: usize = 0;
        while i < n
            invariant
                self.wf(),
                n == self.sprites@.len(),
                0 <= i <= n,
                self.sprites == old(self).sprites,
                self.real_sprites == old(self).real_sprites,
                -0x4000_0000 <= world_x <= 0x4000_0000,
                -0x4000_0000 <= world_y <= 0x4000_0000,
                0 <= tolerance <= 0x4000_0000,
                first_hit(old(self).sprites@, world_x as int, world_y as int, tolerance as int, 0)
                    == first_hit(
                    old(self).sprites@,
                    world_x as int,
                    world_y as int,
                    tolerance as int,
                    i as int,
                ),
            decreases n - i,
        {
            let s = &self.sprites[i];
            let dx = if s.world_x >= world_x {
                s.world_x - world_x
            } else {
                world_x - s.world_x
            };
            let dy = if s.world_y >= world_y {
                s.world_y - world_y
            } else {
                world_y - s.world_y
            };
            if s.active && dx < tolerance && dy < tolerance {
                let sprite_type = s.sprite_type;
                let ghost before = self.sprites@;
                let sprite: &mut Sprite = &mut self.sprites[i];
                sprite.active = false;
                proof {
                    assert(self.sprites@ =~= before.update(
                        i as int,
                        Sprite { active: false, ..before[i as int] },
                    ));
                }
                return Some(sprite_type);
            }
            i = i + 1;
        }
        None
    }
}

/// The bitmap-or-procedural sample of one sprite: the stored bitmap's
/// darkened sample when one exists and is not transparent there, else the
/// procedural shape color.
pub open spec fn sprite_color_spec(
    bitmaps: Seq<(SpriteType, RealSpriteInfo)>,
    s: Sprite,
    tx: int,
    ty: int,
    brightness: int,
) -> Color {
    let idx = sprite_bitmap_index(bitmaps, s.sprite_type);
    if idx >= 0 {
        let sample = sprite_sample_spec(bitmaps[idx].1, tx, ty);
        if sample.a > 0 {
            Color {
                r: channel_shade(sample.r as int, 1000, brightness),
                g: channel_shade(sample.g as int, 1000, brightness),
                b: channel_shade(sample.b as int, 1000, brightness),
                a: sample.a,
            }
        } else {
            fallback_sprite_color_spec(s, tx, ty, brightness)
        }
    } else {
        fallback_sprite_color_spec(s, tx, ty, brightness)
    }
}

/// The left edge of a projected sprite's screen square, clamped to the
/// frame.
pub open spec fn square_left_spec(center_x: int, size: int, width: int) -> int {
    let half = size / 2;
    if center_x - half > 0 {
        center_x - half
    } else {
        0
    }
}

/// The right edge of a projected sprite's screen square, clamped.
pub open spec fn square_right_spec(center_x: int, size: int, width: int) -> int {
    let half = size / 2;
    if center_x + half < width {
        center_x + half
    } else {
        width
    }
}

/// The top edge of a projected sprite's screen square: centered on the
/// horizon, clamped.
pub open spec fn square_top_spec(size: int, height: int) -> int {
    let half = size / 2;
    let center_y = height / 2;
    if center_y - half > 0 {
        center_y - half
    } else {
        0
    }
}

/// The bottom edge of a projected sprite's screen square, clamped.
pub open spec fn square_bottom_spec(size: int, height: int) -> int {
    let half = size / 2;
    let center_y = height / 2;
    if center_y + half < height {
        center_y + half
    } else {
        height
    }
}

/// The projected screen column of a sprite's center: half the width plus
/// the bearing's fraction of the half field of view, clamped to the range
/// the painter accepts.
pub open spec fn sprite_screen_x_spec(s: Sprite, p: Player, width: int) -> int {
    let raw = width / 2 + div_trunc(sprite_bearing(s, p) * (width / 2), p.fov as int / 2);
    if raw < -0x1000_0000 {
        -0x1000_0000
    } else if raw > 0x1000_0000 {
        0x1000_0000
    } else {
        raw
    }
}

/// The projected on-screen size of a sprite, in pixels: inverse-distance
/// projection scaled by the animated per-mille scale.
pub open spec fn sprite_size_spec(s: Sprite, height: int, distance: int) -> int {
    height * s.scale * ((crate::caster::PROJECTION_PLANE_DISTANCE * SUB) as int) / (distance
        * 1000)
}

/// The sample one pixel of a sprite's screen square reads, shaded by the
/// sprite's distance brightness.
pub open spec fn sprite_pixel_spec(
    bitmaps: Seq<(SpriteType, RealSpriteInfo)>,
    s: Sprite,
    sx: int,
    ex: int,
    sy: int,
    ey: int,
    distance: int,
    x: int,
    y: int,
) -> Color {
    let tx = (x - sx) * (TEX_ONE as int) / (ex - sx);
    let ty = (y - sy) * (TEX_ONE as int) / (ey - sy);
    sprite_color_spec(bitmaps, s, tx, ty, sprite_brightness_spec(distance))
}

/// The color a square pixel holds after painting: the sample when opaque,
/// the underlying pixel when the sample is transparent.
pub open spec fn painted_sprite_pixel(
    bitmaps: Seq<(SpriteType, RealSpriteInfo)>,
    s: Sprite,
    sx: int,
    ex: int,
    sy: int,
    ey: int,
    distance: int,
    pre: Framebuffer,
    x: int,
    y: int,
) -> Color {
    let c = sprite_pixel_spec(bitmaps, s, sx, ex, sy, ey, distance, x, y);
    if c.a > 0 {
        c
    } else {
        pre.pixel(x, y)
    }
}

/// The effect of painting one sprite square from `pre` to `post`: pixels
/// outside the square, or at columns whose recorded wall is at least as
/// near, are unchanged; pixels inside it at nearer columns hold the
/// opaque sample or, where the sample is transparent, the old pixel.
pub open spec fn square_painting(
    bitmaps: Seq<(SpriteType, RealSpriteInfo)>,
    s: Sprite,
    center_x: int,
    size: int,
    distance: int,
    zbuf: Seq<i64>,
    pre: Framebuffer,
    post: Framebuffer,
) -> bool {
    let w = pre.width as int;
    let h = pre.height as int;
    let sx = square_left_spec(center_x, size, w);
    let ex = square_right_spec(center_x, size, w);
    let sy = square_top_spec(size, h);
    let ey = square_bottom_spec(size, h);
    &&& forall|x: int, y: int|
        0 <= x < w && 0 <= y < h && !(sx <= x < ex && sy <= y < ey && x < zbuf.len() && distance
            < zbuf[x]) ==> #[trigger] post.pixel(x, y) == pre.pixel(x, y)
    &&& forall|x: int, y: int|
        sx <= x < ex && sy <= y < ey && x < zbuf.len() && distance < zbuf[x]
            ==> #[trigger] post.pixel(x, y) == painted_sprite_pixel(
            bitmaps,
            s,
            sx,
            ex,
            sy,
            ey,
            distance,
            pre,
            x,
            y,
        )
}

/// The effect of projecting and painting one sprite: a sprite at the eye
/// point, under a degenerate view cone, or with a sub-pixel projection
/// leaves the frame unchanged; otherwise its screen square is painted as
/// `square_painting` at the projected center and size.
pub open spec fn single_sprite_painting(
    bitmaps: Seq<(SpriteType, RealSpriteInfo)>,
    s: Sprite,
    p: Player,
    distance: int,
    zbuf: Seq<i64>,
    pre: Framebuffer,
    post: Framebuffer,
) -> bool {
    let size = sprite_size_spec(s, pre.height as int, distance);
    if distance < 1 || (p.fov as int) / 2 <= 0 || size < 1 {
        forall|x: int, y: int|
            0 <= x < pre.width && 0 <= y < pre.height ==> #[trigger] post.pixel(x, y) == pre.pixel(
                x,
                y,
            )
    } else {
        square_painting(
            bitmaps,
            s,
            sprite_screen_x_spec(s, p, pre.width as int),
            size,
            distance,
            zbuf,
            pre,
            post,
        )
    }
}

/// Scales a channel by a pattern intensity and a brightness.
fn shade_channel(c: u8, intensity: i64, brightness: i64) -> (r: u8)
    requires
        0 <= intensity <= 1000,
        0 <= brightness <= 1000,
    ensures
        r == channel_shade(c as int, intensity as int, brightness as int),
{
    proof {
        assert(0 <= c as int * intensity <= 255 * 1000 && 0 <= c as int * intensity * brightness
            <= 255 * 1000 * 1000) by (nonlinear_arith)
            requires
                c <= 255,
                0 <= intensity <= 1000,
                0 <= brightness <= 1000,
        ;
        lemma_div_pos_is_pos(c as int * intensity * brightness, 1000000);
    }
    let v = (c as i64) * intensity * brightness / 1000000;
    if v > 255 {
        255
    } else {
        v as u8
    }
}

impl SpriteManager {
    /// The procedural shape color; exactly `fallback_sprite_color_spec`.
    pub fn get_fallback_sprite_color(&self, sprite: &Sprite, tx: i64, ty: i64, brightness: i64)
        -> (c: Color)
        requires
            sprite.wf(),
            0 <= tx <= TEX_ONE,
            0 <= ty <= TEX_ONE,
            0 <= brightness <= 1000,
        ensures
            c == fallback_sprite_color_spec(*sprite, tx as int, ty as int, brightness as int),
    {
        proof {
            reveal(fallback_sprite_color_spec);
        }
        let base = sprite.sprite_type.get_fallback_color();
        let pair: (i64, i64) = match sprite.sprite_type {
            SpriteType::KeyGold => {
                proof {
                    lemma_div_pos_is_pos(tx as int * 4 * (RADIAN as int), TEX_ONE as int);
                    lemma_div_is_ordered(
                        tx as int * 4 * (RADIAN as int),
                        (TEX_ONE as int) * 4 * (RADIAN as int),
                        TEX_ONE as int,
                    );
                    assert(((TEX_ONE as int) * 4 * (RADIAN as int)) / (TEX_ONE as int) == 4 * (
                    RADIAN as int)) by (nonlinear_arith);
                    lemma_div_pos_is_pos(ty as int * 4 * (RADIAN as int), TEX_ONE as int);
                    lemma_div_is_ordered(
                        ty as int * 4 * (RADIAN as int),
                        (TEX_ONE as int) * 4 * (RADIAN as int),
                        TEX_ONE as int,
                    );
                }
                let s = sin_angle(tx * 4 * RADIAN / TEX_ONE);
                let co = cos_angle(ty * 4 * RADIAN / TEX_ONE);
                proof {
                    assert(-300 * TRIG_ONE * TRIG_ONE <= 300 * s * co <= 300 * TRIG_ONE
                        * TRIG_ONE) by (nonlinear_arith)
                        requires
                            -TRIG_ONE <= s <= TRIG_ONE,
                            -TRIG_ONE <= co <= TRIG_ONE,
                    ;
                    if 300 * s as int * co as int >= 0 {
                        lemma_div_is_ordered(
                            300 * s as int * co as int,
                            300 * (TRIG_ONE as int) * (TRIG_ONE as int),
                            (TRIG_ONE as int) * (TRIG_ONE as int),
                        );
                        assert((300 * (TRIG_ONE as int) * (TRIG_ONE as int)) / ((TRIG_ONE as int) * (
                        TRIG_ONE as int)) == 300) by (nonlinear_arith);
                    } else {
                        lemma_div_is_ordered(
                            -(300 * s as int * co as int),
                            300 * (TRIG_ONE as int) * (TRIG_ONE as int),
                            (TRIG_ONE as int) * (TRIG_ONE as int),
                        );
                        assert((300 * (TRIG_ONE as int) * (TRIG_ONE as int)) / ((TRIG_ONE as int) * (
                        TRIG_ONE as int)) == 300) by (nonlinear_arith);
                    }
                }
                let sheen = div_toward_zero(300 * s * co, TRIG_ONE * TRIG_ONE) + 700;
                let m = if sheen >= 0 {
                    sheen
                } else {
                    -sheen
                };
                (m, 255)
            },
            SpriteType::Checkpoint => {
                if (5 * tx > 2 * TEX_ONE && 5 * tx < 3 * TEX_ONE) || (5 * ty > 2 * TEX_ONE && 5 * ty
                    < 3 * TEX_ONE) {
                    (1000, 255)
                } else {
                    (0, 0)
                }
            },
            SpriteType::ExitPortal => {
                let dx = tx - TEX_ONE / 2;
                let dy = ty - TEX_ONE / 2;
                proof {
                    assert(0 <= dx * dx <= 0x40000 && 0 <= dy * dy <= 0x40000) by (nonlinear_arith)
                        requires
                            -512 <= dx <= 512,
                            -512 <= dy <= 512,
                    ;
                }
                let cd_root = isqrt((dx * dx + dy * dy) as u64);
                proof {
                    assert(cd_root <= 0x800) by (nonlinear_arith)
                        requires
                            cd_root * cd_root <= 0x80000,
                    ;
                }
                let cd = 2 * (cd_root as i64);
                if cd <= TEX_ONE {
                    proof {
                        lemma_div_pos_is_pos(cd as int * 6 * (RADIAN as int), TEX_ONE as int);
                        lemma_div_is_ordered(
                            cd as int * 6 * (RADIAN as int),
                            (TEX_ONE as int) * 6 * (RADIAN as int),
                            TEX_ONE as int,
                        );
                        assert(((TEX_ONE as int) * 6 * (RADIAN as int)) / (TEX_ONE as int) == 6 * (
                        RADIAN as int)) by (nonlinear_arith);
                        lemma_div_pos_is_pos(
                            sprite.animation_time as int * 3 * (RADIAN as int),
                            1000,
                        );
                        lemma_div_is_ordered(
                            sprite.animation_time as int * 3 * (RADIAN as int),
                            (ANIMATION_CLOCK_CAP as int) * 3 * (RADIAN as int),
                            1000,
                        );
                        lemma_div_pos_is_pos(255 * ((TEX_ONE as int) - cd), TEX_ONE as int);
                        lemma_div_is_ordered(
                            255 * ((TEX_ONE as int) - cd),
                            255 * (TEX_ONE as int),
                            TEX_ONE as int,
                        );
                        assert((255 * (TEX_ONE as int)) / (TEX_ONE as int) == 255)
                            by (nonlinear_arith);
                    }
                    let wave_angle = wrap_angle(
                        cd * 6 * RADIAN / TEX_ONE + sprite.animation_time * 3 * RADIAN / 1000,
                    );
                    let s = sin_angle(wave_angle);
                    proof {
                        if 500 * s as int >= 0 {
                            lemma_div_is_ordered(
                                500 * s as int,
                                500 * (TRIG_ONE as int),
                                TRIG_ONE as int,
                            );
                        } else {
                            lemma_div_is_ordered(
                                -(500 * s as int),
                                500 * (TRIG_ONE as int),
                                TRIG_ONE as int,
                            );
                        }
                        assert((500 * (TRIG_ONE as int)) / (TRIG_ONE as int) == 500)
                            by (nonlinear_arith);
                    }
                    let wave = 500 + div_toward_zero(500 * s, TRIG_ONE);
                    let alpha = 255 * (TEX_ONE - cd) / TEX_ONE;
                    (wave, alpha)
                } else {
                    (0, 0)
                }
            },
            SpriteType::ExtraLife => {
                let hx = div_toward_zero(tx - TEX_ONE / 2, 4);
                let hy = div_toward_zero(ty - TEX_ONE / 2, 4);
                proof {
                    assert(-128 <= hx <= 128 && -128 <= hy <= 128);
                    assert(0 <= hx * hx <= 16384 && 0 <= hy * hy <= 16384 && -2097152 <= hy * hy
                        * hy <= 2097152) by (nonlinear_arith)
                        requires
                            -128 <= hx <= 128,
                            -128 <= hy <= 128,
                    ;
                }
                let a = hx * hx + hy * hy - 4096;
                proof {
                    assert(0 <= a * a <= 0x4000_0000_0000 && -0x8000_0000_0000 <= a * a * a
                        <= 0x8000_0000_0000) by (nonlinear_arith)
                        requires
                            -4096 <= a <= 28672,
                    ;
                    assert(-0x4000_0000_0000 <= 64 * (hx * hx) * (hy * hy * hy)
                        <= 0x4000_0000_0000) by (nonlinear_arith)
                        requires
                            0 <= hx * hx <= 16384,
                            -2097152 <= hy * hy * hy <= 2097152,
                    ;
                }
                if a * a * a <= 64 * (hx * hx) * (hy * hy * hy) {
                    (1000, 255)
                } else {
                    (0, 0)
                }
            },
            SpriteType::TrapSpike => {
                proof {
                    lemma_div_pos_is_pos(tx as int * 5, TEX_ONE as int);
                }
                if (tx * 5 / TEX_ONE) % 2 == 0 && 10 * ty > 3 * TEX_ONE {
                    (1000, 255)
                } else {
                    (0, 0)
                }
            },
        };
        Color {
            r: shade_channel(base.r, pair.0, brightness),
            g: shade_channel(base.g, pair.0, brightness),
            b: shade_channel(base.b, pair.0, brightness),
            a: pair.1 as u8,
        }
    }

    /// Samples one sprite pixel: the stored bitmap when it has an opaque
    /// sample there, else the procedural shape; exactly
    /// `sprite_color_spec`.
    pub fn get_sprite_color(&self, sprite: &Sprite, tx: i64, ty: i64, brightness: i64) -> (c:
        Color)
        requires
            self.wf(),
            sprite.wf(),
            0 <= tx <= TEX_ONE,
            0 <= ty <= TEX_ONE,
            0 <= brightness <= 1000,
        ensures
            c == sprite_color_spec(
                self.real_sprites@,
                *sprite,
                tx as int,
                ty as int,
                brightness as int,
            ),
    {
        let n = self.real_sprites.len();
        proof {
            assert(self.real_sprites@.take(n as int) =~= self.real_sprites@);
        }
        let mut i: usize = n;
        while i > 0
            invariant
                self.wf(),
                sprite.wf(),
                0 <= tx <= TEX_ONE,
                0 <= ty <= TEX_ONE,
                0 <= brightness <= 1000,
                i <= n,
                n == self.real_sprites@.len(),
                sprite_bitmap_index(self.real_sprites@, sprite.sprite_type) == sprite_bitmap_index(
                    self.real_sprites@.take(i as int),
                    sprite.sprite_type,
                ),
            decreases i,
        {
            i = i - 1;
            proof {
                assert(self.real_sprites@.take(i + 1).last() == self.real_sprites@[i as int]);
                assert(self.real_sprites@.take(i + 1).drop_last() =~= self.real_sprites@.take(
                    i as int,
                ));
            }
            if self.real_sprites[i].0 == sprite.sprite_type {
                let sample = self.real_sprites[i].1.get_pixel_color(tx, ty);
                if sample.a > 0 {
                    return Color {
                        r: shade_channel(sample.r, 1000, brightness),
                        g: shade_channel(sample.g, 1000, brightness),
                        b: shade_channel(sample.b, 1000, brightness),
                        a: sample.a,
                    };
                } else {
                    return self.get_fallback_sprite_color(sprite, tx, ty, brightness);
                }
            }
        }
        proof {
            assert(self.real_sprites@.take(0) =~= Seq::<(SpriteType, RealSpriteInfo)>::empty());
        }
        self.get_fallback_sprite_color(sprite, tx, ty, brightness)
    }

    /// Paints the screen-space square of one projected sprite, centered on
    /// `center_x` and the horizon, skipping transparent samples: exactly
    /// `square_painting`. A pixel is painted only at a column whose
    /// depth-buffer entry is strictly greater than the sprite's distance,
    /// so no pixel at a column where the wall is at least as near ever
    /// changes.
    pub fn render_sprite_column(
        &self,
        framebuffer: &mut Framebuffer,
        sprite: &Sprite,
        center_x: i64,
        size: i64,
        distance: i64,
        wall_distances: &Vec<i64>,
    )
        requires
            old(framebuffer).wf(),
            self.wf(),
            sprite.wf(),
            1 <= size <= 0x1000_0000,
            -0x1000_0000 <= center_x <= 0x1000_0000,
            0 <= distance <= 0x1_0000_0000,
        ensures
            final(framebuffer).wf(),
            final(framebuffer).width == old(framebuffer).width,
            final(framebuffer).height == old(framebuffer).height,
            forall|px: int, py: int|
                0 <= px < old(framebuffer).width && 0 <= py < old(framebuffer).height && !(px
                    < wall_distances@.len() && distance < wall_distances@[px]) ==> #[trigger] final(framebuffer).pixel(px, py) == old(framebuffer).pixel(px, py),
            square_painting(
                self.real_sprites@,
                *sprite,
                center_x as int,
                size as int,
                distance as int,
                wall_distances@,
                *old(framebuffer),
                *final(framebuffer),
            ),
    {
        let half_size = size / 2;
        let width_i = framebuffer.width as i64;
        let height_i = framebuffer.height as i64;
        let sx = if center_x - half_size > 0 {
            center_x - half_size
        } else {
            0
        };
        let ex = if center_x + half_size < width_i {
            center_x + half_size
        } else {
            width_i
        };
        let center_y = height_i / 2;
        let sy = if center_y - half_size > 0 {
            center_y - half_size
        } else {
            0
        };
        let ey = if center_y + half_size < height_i {
            center_y + half_size
        } else {
            height_i
        };
        let ghost sxg = sx as int;
        let ghost exg = ex as int;
        let ghost syg = sy as int;
        let ghost eyg = ey as int;
        proof {
            assert(sxg == square_left_spec(center_x as int, size as int, framebuffer.width as int));
            assert(exg == square_right_spec(center_x as int, size as int, framebuffer.width as int));
            assert(syg == square_top_spec(size as int, framebuffer.height as int));
            assert(eyg == square_bottom_spec(size as int, framebuffer.height as int));
        }
        if ex <= sx || ey <= sy {
            return;
        }
        let brightness = sprite_brightness(distance);
        let mut y = sy;
        while y < ey
            invariant
                framebuffer.wf(),
                framebuffer.width == old(framebuffer).width,
                framebuffer.height == old(framebuffer).height,
                self.wf(),
                sprite.wf(),
                0 <= distance <= 0x1_0000_0000,
                brightness == sprite_brightness_spec(distance as int),
                790 <= brightness <= 1000,
                0 <= sx < ex <= framebuffer.width <= 0x8000,
                0 <= sy <= y <= ey <= framebuffer.height <= 0x8000,
                sxg == sx as int && exg == ex as int && syg == sy as int && eyg == ey as int,
                forall|px: int, py: int|
                    0 <= px < old(framebuffer).width && 0 <= py < old(framebuffer).height && !(sxg
                        <= px < exg && syg <= py < y && px < wall_distances@.len() && distance
                        < wall_distances@[px]) ==> #[trigger] framebuffer.pixel(px, py) == old(
                        framebuffer,
                    ).pixel(px, py),
                forall|px: int, py: int|
                    sxg <= px < exg && syg <= py < y && px < wall_distances@.len() && distance
                        < wall_distances@[px] ==> #[trigger] framebuffer.pixel(px, py)
                        == painted_sprite_pixel(
                        self.real_sprites@,
                        *sprite,
                        sxg,
                        exg,
                        syg,
                        eyg,
                        distance as int,
                        *old(framebuffer),
                        px,
                        py,
                    ),
            decreases ey - y,
        {
            let mut x = sx;
            while x < ex
                invariant
                    framebuffer.wf(),
                    framebuffer.width == old(framebuffer).width,
                    framebuffer.height == old(framebuffer).height,
                    self.wf(),
                    sprite.wf(),
                    0 <= distance <= 0x1_0000_0000,
                    brightness == sprite_brightness_spec(distance as int),
                    790 <= brightness <= 1000,
                    0 <= sx <= x <= ex <= framebuffer.width <= 0x8000,
                    0 <= sy <= y < ey <= framebuffer.height <= 0x8000,
                    sxg == sx as int && exg == ex as int && syg == sy as int && eyg == ey as int,
                    sxg < exg,
                    forall|px: int, py: int|
                        0 <= px < old(framebuffer).width && 0 <= py < old(framebuffer).height && !(
                        sxg <= px < exg && (syg <= py < y || (py == y && px < x)) && px
                            < wall_distances@.len() && distance < wall_distances@[px])
                            ==> #[trigger] framebuffer.pixel(px, py) == old(framebuffer).pixel(
                            px,
                            py,
                        ),
                    forall|px: int, py: int|
                        sxg <= px < exg && (syg <= py < y || (py == y && px < x)) && px
                            < wall_distances@.len() && distance < wall_distances@[px]
                            ==> #[trigger] framebuffer.pixel(px, py) == painted_sprite_pixel(
                            self.real_sprites@,
                            *sprite,
                            sxg,
                            exg,
                            syg,
                            eyg,
                            distance as int,
                            *old(framebuffer),
                            px,
                            py,
                        ),
                decreases ex - x,
            {
                let xi = x as usize;
                if xi < wall_distances.len() && distance < wall_distances[xi] {
                    proof {
                        lemma_div_pos_is_pos((x - sx) * (TEX_ONE as int), (ex - sx) as int);
                        lemma_mul_inequality((x - sx) as int, (ex - sx) as int, TEX_ONE as int);
                        lemma_div_is_ordered(
                            (x - sx) * (TEX_ONE as int),
                            (ex - sx) * (TEX_ONE as int),
                            (ex - sx) as int,
                        );
                        assert(((ex - sx) * (TEX_ONE as int)) / ((ex - sx) as int)
                            == TEX_ONE as int) by (nonlinear_arith)
                            requires
                                ex - sx >= 1,
                        ;
                        lemma_div_pos_is_pos((y - sy) * (TEX_ONE as int), (ey - sy) as int);
                        lemma_mul_inequality((y - sy) as int, (ey - sy) as int, TEX_ONE as int);
                        lemma_div_is_ordered(
                            (y - sy) * (TEX_ONE as int),
                            (ey - sy) * (TEX_ONE as int),
                            (ey - sy) as int,
                        );
                        assert(((ey - sy) * (TEX_ONE as int)) / ((ey - sy) as int)
                            == TEX_ONE as int) by (nonlinear_arith)
                            requires
                                ey - sy >= 1,
                        ;
                    }
                    let tx = (x - sx) * TEX_ONE / (ex - sx);
                    let ty = (y - sy) * TEX_ONE / (ey - sy);
                    let color = self.get_sprite_color(sprite, tx, ty, brightness);
                    proof {
                        assert(color == sprite_pixel_spec(
                            self.real_sprites@,
                            *sprite,
                            sxg,
                            exg,
                            syg,
                            eyg,
                            distance as int,
                            x as int,
                            y as int,
                        ));
                    }
                    if color.a > 0 {
                        framebuffer.set_current_color(color);
                        framebuffer.set_pixel(xi, y as usize);
                    }
                }
                x = x + 1;
            }
            y = y + 1;
        }
    }

    /// Projects one sprite to screen space — horizontal position from its
    /// bearing over the half field of view, size by inverse distance and
    /// animated scale — and paints it: exactly `single_sprite_painting`,
    /// so sub-pixel projections and sprites at the eye point leave the
    /// frame untouched, and pixels at columns whose depth-buffer entry is
    /// at most the sprite's distance never change.
    pub fn render_single_sprite(
        &self,
        framebuffer: &mut Framebuffer,
        player: &Player,
        sprite: &Sprite,
        distance: i64,
        wall_distances: &Vec<i64>,
    )
        requires
            old(framebuffer).wf(),
            self.wf(),
            player.wf(),
            sprite.wf(),
            0 <= distance <= 0x1_0000_0000,
        ensures
            final(framebuffer).wf(),
            final(framebuffer).width == old(framebuffer).width,
            final(framebuffer).height == old(framebuffer).height,
            forall|px: int, py: int|
                0 <= px < old(framebuffer).width && 0 <= py < old(framebuffer).height && !(px
                    < wall_distances@.len() && distance < wall_distances@[px]) ==> #[trigger] final(framebuffer).pixel(px, py) == old(framebuffer).pixel(px, py),
            single_sprite_painting(
                self.real_sprites@,
                *sprite,
                *player,
                distance as int,
                wall_distances@,
                *old(framebuffer),
                *final(framebuffer),
            ),
    {
        if distance < 1 {
            return;
        }
        let half_fov = player.fov / 2;
        if half_fov <= 0 {
            return;
        }
        let dx = sprite.world_x - player.x;
        let dy = sprite.world_y - player.y;
        let angle_to_sprite = atan2_angle(dy, dx);
        let relative = to_signed_angle(wrap_angle(angle_to_sprite - player.a));
        let half_width = (framebuffer.width as i64) / 2;
        proof {
            assert(-ANGLE_HALF * 0x4000 <= relative * half_width <= ANGLE_HALF * 0x4000)
                by (nonlinear_arith)
                requires
                    -ANGLE_HALF <= relative <= ANGLE_HALF,
                    0 <= half_width <= 0x4000,
            ;
        }
        let screen_x = half_width + div_toward_zero(relative * half_width, half_fov);
        proof {
            assert(0 <= (framebuffer.height as int) * sprite.scale <= 0x8000 * 2000 && 0 <= (
            framebuffer.height as int) * sprite.scale * ((crate::caster::PROJECTION_PLANE_DISTANCE
                * SUB) as int) <= 0x8000 * 2000 * 200) by (nonlinear_arith)
                requires
                    0 <= framebuffer.height <= 0x8000,
                    0 <= sprite.scale <= 2000,
                    crate::caster::PROJECTION_PLANE_DISTANCE == 100,
                    SUB == 2,
            ;
            lemma_div_pos_is_pos(
                (framebuffer.height as int) * sprite.scale * ((crate::caster::PROJECTION_PLANE_DISTANCE
                    * SUB) as int),
                distance as int * 1000,
            );
            lemma_div_is_ordered(
                (framebuffer.height as int) * sprite.scale * ((crate::caster::PROJECTION_PLANE_DISTANCE
                    * SUB) as int),
                0x8000int * 2000 * 200,
                distance as int * 1000,
            );
            assert((0x8000int * 2000 * 200) / (distance as int * 1000) <= 0x1000_0000)
                by (nonlinear_arith)
                requires
                    distance >= 1,
            ;
        }
        let num = (framebuffer.height as i64) * sprite.scale * (crate::caster::PROJECTION_PLANE_DISTANCE
            * SUB);
        let sprite_size = num / (distance * 1000);
        proof {
            assert(sprite_size == sprite_size_spec(
                *sprite,
                framebuffer.height as int,
                distance as int,
            ));
            assert(relative == sprite_bearing(*sprite, *player));
        }
        if sprite_size >= 1 {
            let clamped_x = if screen_x < -0x1000_0000 {
                -0x1000_0000
            } else if screen_x > 0x1000_0000 {
                0x1000_0000
            } else {
                screen_x
            };
            proof {
                assert(clamped_x == sprite_screen_x_spec(
                    *sprite,
                    *player,
                    framebuffer.width as int,
                ));
            }
            self.render_sprite_column(
                framebuffer,
                sprite,
                clamped_x,
                sprite_size,
                distance,
                wall_distances,
            );
        }
    }

    /// Renders every active, visible sprite far to near through the depth
    /// buffer. The occlusion invariant: a pixel in a column whose recorded
    /// wall distance is at most every active sprite's distance — squared
    /// distances compared, since the buffer holds subunits — is never
    /// painted, so walls always occlude sprites. When no sprite is both
    /// active and within the view cone the frame does not change at all,
    /// and a lone active visible sprite is painted exactly as
    /// `single_sprite_painting` at its integer-square-root distance.
    pub fn render_sprites(
        &self,
        framebuffer: &mut Framebuffer,
        player: &Player,
        wall_distances: &Vec<i64>,
    )
        requires
            old(framebuffer).wf(),
            self.wf(),
            player.wf(),
        ensures
            final(framebuffer).wf(),
            final(framebuffer).width == old(framebuffer).width,
            final(framebuffer).height == old(framebuffer).height,
            forall|px: int, py: int|
                0 <= px < old(framebuffer).width && 0 <= py < old(framebuffer).height && (px
                    >= wall_distances@.len() || (forall|i: int|
                    0 <= i < self.sprites@.len() && (#[trigger] self.sprites@[i]).active
                        ==> sprite_dist_sq(self.sprites@[i], *player) >= wall_distances@[px]
                        * wall_distances@[px])) ==> #[trigger] final(framebuffer).pixel(px, py) == old(framebuffer).pixel(px, py),
            (forall|i: int|
                0 <= i < self.sprites@.len() ==> !((#[trigger] self.sprites@[i]).active
                    && sprite_visible(self.sprites@[i], *player))) ==> forall|px: int, py: int|
                0 <= px < old(framebuffer).width && 0 <= py < old(framebuffer).height
                    ==> #[trigger] final(framebuffer).pixel(px, py) == old(framebuffer).pixel(px, py),
            self.sprites@.len() == 1 && self.sprites@[0].active && sprite_visible(
                self.sprites@[0],
                *player,
            ) ==> single_sprite_painting(
                self.real_sprites@,
                self.sprites@[0],
                *player,
                sqrt_nat(sprite_dist_sq(self.sprites@[0], *player) as nat) as int,
                wall_distances@,
                *old(framebuffer),
                *final(framebuffer),
            ),
    {
        if self.sprites.len() == 0 {
            return;
        }
        let n = self.sprites.len();
        let ghost d0: int = sqrt_nat(sprite_dist_sq(self.sprites@[0], *player) as nat) as int;
        let mut order: Vec<(usize, i64)> = Vec::new();
        let mut i: usize = 0;
        while i < n
            invariant
                self.wf(),
                player.wf(),
                n == self.sprites@.len(),
                0 <= i <= n,
                order_ok(order@, self.sprites@, *player),
                d0 == sqrt_nat(sprite_dist_sq(self.sprites@[0], *player) as nat) as int,
                (n == 1 && self.sprites@[0].active && sprite_visible(self.sprites@[0], *player))
                    ==> order@.len() == i && (i == 1 ==> order@[0].0 == 0 && order@[0].1 == d0),
            decreases n - i,
        {
            let s = &self.sprites[i];
            if s.active && s.is_visible_to_player(player) {
                let d = s.distance_to_player(player);
                order.push((i, d));
                proof {
                    assert forall|k: int| 0 <= k < order@.len() implies order_entry_ok(
                        #[trigger] order@[k],
                        self.sprites@,
                        *player,
                    ) by {
                        if k < order@.len() - 1 {
                            assert(order_entry_ok(order@[k], self.sprites@, *player));
                        }
                    }
                }
            }
            i = i + 1;
        }
        let m = order.len();
        let ghost order_c = order@;
        let mut k: usize = 1;
        while k < m
            invariant
                self.wf(),
                player.wf(),
                m == order@.len(),
                order_ok(order@, self.sprites@, *player),
                m <= 1 ==> order@ == order_c,
            decreases m - k,
        {
            let mut j = k;
            while j > 0 && order[j - 1].1 < order[j].1
                invariant
                    self.wf(),
                    player.wf(),
                    m == order@.len(),
                    0 <= j <= m,
                    j < m,
                    order_ok(order@, self.sprites@, *player),
                    m <= 1 ==> order@ == order_c,
                decreases j,
            {
                let a = order[j - 1];
                let b = order[j];
                order.set(j - 1, b);
                order.set(j, a);
                proof {
                    assert forall|t: int| 0 <= t < order@.len() implies order_entry_ok(
                        #[trigger] order@[t],
                        self.sprites@,
                        *player,
                    ) by {
                        assert(order@[t] == a || order@[t] == b || order_entry_ok(
                            order@[t],
                            self.sprites@,
                            *player,
                        ));
                    }
                }
                j = j - 1;
            }
            k = k + 1;
        }
        proof {
            if (forall|i: int|
                0 <= i < self.sprites@.len() ==> !((#[trigger] self.sprites@[i]).active
                    && sprite_visible(self.sprites@[i], *player))) && m > 0 {
                assert(order_entry_ok(order@[0], self.sprites@, *player));
                assert(false);
            }
        }
        let mut t: usize = 0;
        while t < m
            invariant
                framebuffer.wf(),
                framebuffer.width == old(framebuffer).width,
                framebuffer.height == old(framebuffer).height,
                self.wf(),
                player.wf(),
                m == order@.len(),
                0 <= t <= m,
                order_ok(order@, self.sprites@, *player),
                d0 == sqrt_nat(sprite_dist_sq(self.sprites@[0], *player) as nat) as int,
                m == 0 ==> *framebuffer == *old(framebuffer),
                t == 0 ==> *framebuffer == *old(framebuffer),
                (n == 1 && self.sprites@[0].active && sprite_visible(self.sprites@[0], *player))
                    ==> m == 1 && order@[0].0 == 0 && order@[0].1 == d0,
                (n == 1 && self.sprites@[0].active && sprite_visible(self.sprites@[0], *player)
                    && t == 1) ==> single_sprite_painting(
                    self.real_sprites@,
                    self.sprites@[0],
                    *player,
                    d0,
                    wall_distances@,
                    *old(framebuffer),
                    *framebuffer,
                ),
                forall|px: int, py: int|
                    0 <= px < old(framebuffer).width && 0 <= py < old(framebuffer).height && (px
                        >= wall_distances@.len() || (forall|i: int|
                        0 <= i < self.sprites@.len() && (#[trigger] self.sprites@[i]).active
                            ==> sprite_dist_sq(self.sprites@[i], *player) >= wall_distances@[px]
                            * wall_distances@[px])) ==> #[trigger] framebuffer.pixel(px, py) == old(
                        framebuffer,
                    ).pixel(px, py),
            decreases m - t,
        {
            let entry = order[t];
            let idx = entry.0;
            let dist = entry.1;
            let ghost fb_before = *framebuffer;
            self.render_single_sprite(
                framebuffer,
                player,
                &self.sprites[idx],
                dist,
                wall_distances,
            );
            proof {
                assert forall|px: int, py: int|
                    0 <= px < old(framebuffer).width && 0 <= py < old(framebuffer).height && (px
                        >= wall_distances@.len() || (forall|i: int|
                        0 <= i < self.sprites@.len() && (#[trigger] self.sprites@[i]).active
                            ==> sprite_dist_sq(self.sprites@[i], *player) >= wall_distances@[px]
                            * wall_distances@[px])) implies #[trigger] framebuffer.pixel(px, py)
                    == old(framebuffer).pixel(px, py) by {
                    if px < wall_distances@.len() {
                        let z = wall_distances@[px];
                        assert(self.sprites@[idx as int].active);
                        assert(sprite_dist_sq(self.sprites@[idx as int], *player) >= z * z);
                        assert(!(dist < z)) by (nonlinear_arith)
                            requires
                                dist >= 0,
                                sprite_dist_sq(self.sprites@[idx as int], *player) < (dist + 1) * (
                                dist + 1),
                                sprite_dist_sq(self.sprites@[idx as int], *player) >= z * z,
                        ;
                        assert(framebuffer.pixel(px, py) == fb_before.pixel(px, py));
                    } else {
                        assert(framebuffer.pixel(px, py) == fb_before.pixel(px, py));
                    }
                }
            }
            t = t + 1;
        }
    }
}

/// One entry of the painter's ordering: a valid index of an active,
/// visible sprite with its computed integer-square-root distance.
pub open spec fn order_entry_ok(e: (usize, i64), sprites: Seq<Sprite>, p: Player) -> bool {
    &&& 0 <= e.0 < sprites.len()
    &&& sprites[e.0 as int].active
    &&& sprite_visible(sprites[e.0 as int], p)
    &&& 0 <= e.1 <= 0x1_0000_0000
    &&& e.1 * e.1 <= sprite_dist_sq(sprites[e.0 as int], p)
    &&& sprite_dist_sq(sprites[e.0 as int], p) < (e.1 + 1) * (e.1 + 1)
}

/// Every entry of the ordering is valid.
pub open spec fn order_ok(order: Seq<(usize, i64)>, sprites: Seq<Sprite>, p: Player) -> bool {
    forall|k: int| 0 <= k < order.len() ==> order_entry_ok(#[trigger] order[k], sprites, p)
}

/// The per-mille brightness of a sprite at a march distance: a gentler
/// darkening than walls, at most 30 percent from 400 world units out.
pub fn sprite_brightness(distance: i64) -> (r: i64)
    requires
        0 <= distance <= 0x1_0000_0000,
    ensures
        r == sprite_brightness_spec(distance as int),
        790 <= r <= 1000,
{
    proof {
        lemma_div_pos_is_pos(distance as int * 1000, 400 * (SUB as int));
    }
    let mut factor: i64 = distance * 1000 / (400 * SUB);
    if factor > 700 {
        factor = 700;
    }
    1000 - factor * 3 / 10
}

/// Sprite distance attenuation, per-mille.
pub open spec fn sprite_brightness_spec(d: int) -> int {
    let capped = if d * 1000 / (400 * (SUB as int)) > 700 {
        700
    } else {
        d * 1000 / (400 * (SUB as int))
    };
    1000 - capped * 3 / 10
}

/// How many of the first `n` sprites are active.
pub open spec fn active_count(s: Seq<Sprite>, n: int) -> int
    decreases n,
{
    if n <= 0 {
        0
    } else {
        active_count(s, n - 1) + (if s[n - 1].active {
            1int
        } else {
            0int
        })
    }
}

/// The active count of a prefix never exceeds its length.
proof fn lemma_active_count_bound(s: Seq<Sprite>, n: int)
    ensures
        active_count(s, n) <= (if n >= 0 {
            n
        } else {
            0
        }),
        0 <= active_count(s, n),
    decreases (if n >= 0 {
        n
    } else {
        0
    }),
{
    if n > 0 {
        lemma_active_count_bound(s, n - 1);
    }
}

/// The index of the first sprite from `from` on that is active and within
/// `tol` of the point on both axes, or -1.
pub open spec fn first_hit(s: Seq<Sprite>, x: int, y: int, tol: int, from: int) -> int
    decreases s.len() - from,
{
    if from < 0 || from >= s.len() {
        -1
    } else if s[from].active && crate::num::abs_spec(s[from].world_x - x) < tol && crate::num::abs_spec(
        s[from].world_y - y,
    ) < tol {
        from
    } else {
        first_hit(s, x, y, tol, from + 1)
    }
}

/// The procedural shape color of a sprite kind at normalized coordinates
/// `(tx, ty)`, shaded by a per-mille brightness: a metallic sheen for the
/// key, a solid cross for the checkpoint, radiating rings modulated by the
/// sprite's own clock for the portal, an implicit heart curve for the
/// extra life, and a row of spikes for the trap. Intensity zero with alpha
/// zero marks a transparent sample.
#[verifier::opaque]
pub open spec fn fallback_sprite_color_spec(s: Sprite, tx: int, ty: int, brightness: int) -> Color {
    let base = fallback_color_spec(s.sprite_type);
    let t1 = TEX_ONE as int;
    let one = TRIG_ONE as int;
    let pair = match s.sprite_type {
        SpriteType::KeyGold => {
            let sheen = div_trunc(
                300 * sin_spec(angle_mod(tx * 4 * (RADIAN as int) / t1)) * cos_spec(
                    angle_mod(ty * 4 * (RADIAN as int) / t1),
                ),
                one * one,
            ) + 700;
            (crate::num::abs_spec(sheen), 255int)
        },
        SpriteType::Checkpoint => {
            if (5 * tx > 2 * t1 && 5 * tx < 3 * t1) || (5 * ty > 2 * t1 && 5 * ty < 3 * t1) {
                (1000int, 255int)
            } else {
                (0int, 0int)
            }
        },
        SpriteType::ExitPortal => {
            let dx = tx - t1 / 2;
            let dy = ty - t1 / 2;
            let cd = 2 * sqrt_nat((dx * dx + dy * dy) as nat) as int;
            if cd <= t1 {
                let wave_angle = angle_mod(
                    cd * 6 * (RADIAN as int) / t1 + s.animation_time * 3 * (RADIAN as int) / 1000,
                );
                (500 + div_trunc(500 * sin_spec(wave_angle), one), 255 * (t1 - cd) / t1)
            } else {
                (0int, 0int)
            }
        },
        SpriteType::ExtraLife => {
            let hx = div_trunc(tx - t1 / 2, 4);
            let hy = div_trunc(ty - t1 / 2, 4);
            let a = hx * hx + hy * hy - 4096;
            if a * a * a <= 64 * (hx * hx) * (hy * hy * hy) {
                (1000int, 255int)
            } else {
                (0int, 0int)
            }
        },
        SpriteType::TrapSpike => {
            if (tx * 5 / t1) % 2 == 0 && 10 * ty > 3 * t1 {
                (1000int, 255int)
            } else {
                (0int, 0int)
            }
        },
    };
    Color {
        r: channel_shade(base.r as int, pair.0, brightness),
        g: channel_shade(base.g as int, pair.0, brightness),
        b: channel_shade(base.b as int, pair.0, brightness),
        a: pair.1 as u8,
    }
}

/// One channel scaled by a pattern intensity and a brightness, both
/// per-mille, saturating at 255.
pub open spec fn channel_shade(c: int, intensity: int, brightness: int) -> u8 {
    let v = c * intensity * brightness / 1000000;
    if v > 255 {
        255
    } else {
        v as u8
    }
}

/// The sinusoidal swing of a pulse: `amp * sin(clock * rate)` with the
/// rate in radians per second, rounded toward zero.
fn pulse_swing(clock: i64, rate: i64, amp: i64) -> (r: i64)
    requires
        0 <= clock <= ANIMATION_CLOCK_CAP,
        1 <= rate <= 8,
        0 <= amp <= 500,
    ensures
        r == div_trunc(
            amp as int * sin_spec(angle_mod(clock as int * rate as int * (RADIAN as int) / 1000)),
            TRIG_ONE as int,
        ),
        -500 <= r <= 500,
{
    proof {
        assert(0 <= clock * rate <= 0x80_0000_0000) by (nonlinear_arith)
            requires
                0 <= clock <= ANIMATION_CLOCK_CAP,
                1 <= rate <= 8,
                ANIMATION_CLOCK_CAP == 0x10_0000_0000,
        ;
    }
    let angle = wrap_angle(clock * rate * RADIAN / 1000);
    let s = sin_angle(angle);
    proof {
        assert(-500 * TRIG_ONE <= amp * s <= 500 * TRIG_ONE) by (nonlinear_arith)
            requires
                0 <= amp <= 500,
                -TRIG_ONE <= s <= TRIG_ONE,
        ;
        assert(div_trunc(amp as int * s as int, TRIG_ONE as int) <= 500 && div_trunc(
            amp as int * s as int,
            TRIG_ONE as int,
        ) >= -500) by {
            if amp as int * s as int >= 0 {
                lemma_div_is_ordered(amp as int * s as int, 500 * TRIG_ONE, TRIG_ONE as int);
            } else {
                lemma_div_is_ordered(-(amp as int * s as int), 500 * TRIG_ONE, TRIG_ONE as int);
            }
        }
    }
    div_toward_zero(amp * s, TRIG_ONE)
}

} // verus!
