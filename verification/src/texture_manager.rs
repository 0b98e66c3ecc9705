//! The wall texture provider: maps a wall symbol and normalized texture
//! coordinates to a color, preferring a decoded bitmap and falling back to
//! a per-symbol procedural pattern. Every symbol resolves to some color —
//! unmapped ones to a neutral gray — so the renderer never lacks a sample.

use vstd::arithmetic::div_mod::{lemma_div_is_ordered, lemma_div_pos_is_pos};
use vstd::prelude::*;

use crate::angle::{sin_spec, sin_angle, ANGLE_TURN};
use crate::caster::TEX_ONE;
use crate::framebuffer::Color;
use crate::num::isqrt;

verus! {

/// A texture coordinate clamped into `[0, TEX_ONE]`.
pub open spec fn clamp_tex(t: int) -> int {
    if t < 0 {
        0
    } else if t > TEX_ONE {
        TEX_ONE as int
    } else {
        t
    }
}

/// A decoded bitmap: raw RGBA bytes with its dimensions, plus the color
/// used when a sample would fall outside the byte buffer.
pub struct RealTextureInfo {
    pub pixels: Vec<u8>,
    pub width: usize,
    pub height: usize,
    pub fallback_color: Color,
}

/// The color a bitmap yields at normalized coordinates `(tx, ty)`:
/// nearest lookup by scaling into pixel indices, clamped to the image
/// bounds; the fallback where the buffer is too short or the image empty.
pub open spec fn bitmap_sample_spec(info: RealTextureInfo, tx: int, ty: int) -> Color {
    if info.width == 0 || info.height == 0 {
        info.fallback_color
    } else {
        let x = clamp_tex(tx) * (info.width - 1) / (TEX_ONE as int);
        let y = clamp_tex(ty) * (info.height - 1) / (TEX_ONE as int);
        let idx = (y * info.width + x) * 4;
        if idx + 3 < info.pixels@.len() {
            Color {
                r: info.pixels@[idx],
                g: info.pixels@[idx + 1],
                b: info.pixels@[idx + 2],
                a: info.pixels@[idx + 3],
            }
        } else {
            info.fallback_color
        }
    }
}

impl RealTextureInfo {
    /// Reasonable image dimensions, so index arithmetic stays in range.
    pub open spec fn wf(self) -> bool {
        &&& self.width <= 0x10000
        &&& self.height <= 0x10000
    }

    /// Wraps decoded RGBA bytes.
    pub fn new(pixels: Vec<u8>, width: usize, height: usize, fallback_color: Color) -> (r:
        RealTextureInfo)
        requires
            width <= 0x10000,
            height <= 0x10000,
        ensures
            r.wf(),
            r == (RealTextureInfo { pixels, width, height, fallback_color }),
    {
        RealTextureInfo { pixels, width, height, fallback_color }
    }

    /// Samples the bitmap at normalized coordinates; exactly
    /// `bitmap_sample_spec`.
    pub fn get_pixel_color(&self, texture_x: i64, texture_y: i64) -> (c: Color)
        requires
            self.wf(),
        ensures
            c == bitmap_sample_spec(*self, texture_x as int, texture_y as int),
    {
        if self.width == 0 || self.height == 0 {
            return self.fallback_color;
        }
        let cx = clamp_tex_exec(texture_x);
        let cy = clamp_tex_exec(texture_y);
        proof {
            lemma_scaled_coord_bound(cx as int, self.width as int);
            lemma_scaled_coord_bound(cy as int, self.height as int);
        }
        let x = (cx * (self.width as i64 - 1) / TEX_ONE) as u64;
        let y = (cy * (self.height as i64 - 1) / TEX_ONE) as u64;
        proof {
            assert(y * (self.width as u64) + x < 0x1_0000_0000) by (nonlinear_arith)
                requires
                    x < self.width as u64,
                    y < self.height as u64,
                    self.width <= 0x10000,
                    self.height <= 0x10000,
            ;
        }
        let idx = (y * (self.width as u64) + x) * 4;
        if idx + 3 < self.pixels.len() as u64 {
            let i = idx as usize;
            Color {
                r: self.pixels[i],
                g: self.pixels[i + 1],
                b: self.pixels[i + 2],
                a: self.pixels[i + 3],
            }
        } else {
            self.fallback_color
        }
    }
}

/// A clamped coordinate scaled by `w - 1` stays below `w`.
proof fn lemma_scaled_coord_bound(c: int, w: int)
    requires
        0 <= c <= TEX_ONE,
        1 <= w <= 0x10000,
    ensures
        0 <= c * (w - 1) / (TEX_ONE as int) < w,
        c * (w - 1) <= 0x10000 * TEX_ONE,
{
    assert(0 <= c * (w - 1) <= TEX_ONE * (w - 1)) by (nonlinear_arith)
        requires
            0 <= c <= TEX_ONE,
            w >= 1,
    ;
    lemma_div_pos_is_pos(c * (w - 1), TEX_ONE as int);
    lemma_div_is_ordered(c * (w - 1), TEX_ONE * (w - 1), TEX_ONE as int);
    assert((TEX_ONE * (w - 1)) / (TEX_ONE as int) == w - 1) by (nonlinear_arith);
    assert(c * (w - 1) <= 0x10000 * TEX_ONE) by (nonlinear_arith)
        requires
            0 <= c <= TEX_ONE,
            1 <= w <= 0x10000,
    ;
}

/// Clamps a texture coordinate into `[0, TEX_ONE]`.
pub fn clamp_tex_exec(t: i64) -> (r: i64)
    ensures
        r == clamp_tex(t as int),
        0 <= r <= TEX_ONE,
{
    if t < 0 {
        0
    } else if t > TEX_ONE {
        TEX_ONE
    } else {
        t
    }
}

/// The symbols the texture provider treats as textured walls: the wall
/// alphabet plus the exit portal, which is drawn as a glowing wall.
pub open spec fn is_textured_wall_sym(c: char) -> bool {
    crate::cells::is_wall_sym(c) || c == 'e'
}

/// Last-match lookup in an association list, so a later entry for the
/// same symbol overrides an earlier one.
pub open spec fn palette_lookup(s: Seq<(char, Color)>, c: char) -> Option<Color>
    decreases s.len(),
{
    if s.len() == 0 {
        None
    } else if s.last().0 == c {
        Some(s.last().1)
    } else {
        palette_lookup(s.drop_last(), c)
    }
}

/// Whether a texture is stored for symbol `c`; last entry wins.
pub open spec fn texture_index(s: Seq<(char, RealTextureInfo)>, c: char) -> int
    decreases s.len(),
{
    if s.len() == 0 {
        -1
    } else if s.last().0 == c {
        s.len() - 1
    } else {
        texture_index(s.drop_last(), c)
    }
}

/// The per-mille brightness variation a procedural wall pattern applies
/// at `(tx, ty)`: grid lines for the plain walls, a brick offset pattern
/// for `'r'`, metallic paneling for `'b'`, a clock-driven pulse for the
/// exit `'e'`, and no variation for anything else.
pub open spec fn wall_variation_spec(ch: char, tx: int, ty: int, clock_ms: int) -> int {
    if ch == '#' || ch == '+' || ch == '-' || ch == '|' {
        let gx = tx * 8 / (TEX_ONE as int);
        let gy = ty * 8 / (TEX_ONE as int);
        if gx % 4 == 0 && gy % 4 == 0 {
            850
        } else if gx % 8 == 0 || gy % 8 == 0 {
            900
        } else {
            1000
        }
    } else if ch == 'r' {
        let brick_row = ty * 6 / (TEX_ONE as int);
        let brick_col = (tx * 12 + (brick_row % 2) * 6 * (TEX_ONE as int)) / (TEX_ONE as int);
        let mortar_h = (ty * 6) % (TEX_ONE as int) < (TEX_ONE as int) / 10;
        let mortar_v = brick_col % 12 == 0;
        if mortar_h || mortar_v {
            700
        } else {
            1000 + (brick_col % 3) * 50
        }
    } else if ch == 'b' {
        let panel_x = tx * 4 / (TEX_ONE as int);
        let dx = tx - (TEX_ONE as int) / 2;
        let dy = ty - (TEX_ONE as int) / 2;
        let center_dist = crate::num::sqrt_nat((dx * dx + dy * dy) as nat) as int;
        900 + (panel_x % 2) * 100 + center_dist * 200 / (TEX_ONE as int)
    } else if ch == 'e' {
        let pulse_angle = (clock_ms * 31291 / 1000) % (ANGLE_TURN as int);
        700 + crate::num::div_trunc(300 * sin_spec(pulse_angle), crate::angle::TRIG_ONE as int)
    } else {
        1000
    }
}

/// One channel scaled by a per-mille factor, saturating at 255.
pub open spec fn scale_channel_spec(c: u8, f: int) -> u8 {
    let v = c * f / 1000;
    if v > 255 {
        255
    } else {
        v as u8
    }
}

/// The procedural wall color: the palette color of the symbol (neutral
/// gray when unmapped) with the symbol's variation applied to each
/// channel; the alpha channel is kept.
pub open spec fn wall_simple_spec(
    palette: Seq<(char, Color)>,
    clock_ms: int,
    ch: char,
    tx: int,
    ty: int,
) -> Color {
    let base = match palette_lookup(palette, ch) {
        Some(c) => c,
        None => Color { r: 130, g: 130, b: 130, a: 255 },
    };
    let f = wall_variation_spec(ch, tx, ty, clock_ms);
    Color {
        r: scale_channel_spec(base.r, f),
        g: scale_channel_spec(base.g, f),
        b: scale_channel_spec(base.b, f),
        a: base.a,
    }
}

/// The color the provider yields for one wall symbol at normalized
/// coordinates: the stored bitmap's sample when a bitmap exists for the
/// symbol, else the procedural pattern.
pub open spec fn wall_sample_spec(tm: TextureManager, ch: char, tx: int, ty: int) -> Color {
    if texture_index(tm.real_textures@, ch) >= 0 {
        bitmap_sample_spec(tm.real_textures@[texture_index(tm.real_textures@, ch)].1, tx, ty)
    } else {
        wall_simple_spec(tm.fallback_colors@, tm.clock_ms as int, ch, tx, ty)
    }
}

/// The wall texture provider: decoded bitmaps per symbol with a
/// procedural per-symbol fallback palette and an animation clock that
/// drives the pulsing exit pattern.
pub struct TextureManager {
    pub real_textures: Vec<(char, RealTextureInfo)>,
    pub fallback_colors: Vec<(char, Color)>,
    pub default_texture_size: usize,
    pub clock_ms: u64,
}

impl TextureManager {
    /// Well-formedness: stored bitmaps have sane dimensions and the clock
    /// has room for the pulse arithmetic.
    pub open spec fn wf(self) -> bool {
        &&& forall|i: int|
            0 <= i < self.real_textures@.len() ==> (#[trigger] self.real_textures@[i]).1.wf()
        &&& self.clock_ms <= 0x1_0000_0000_0000
    }

    /// The standard palette: a yellow family for the plain walls, red and
    /// blue accent walls, and a green exit.
    pub open spec fn standard_palette() -> Seq<(char, Color)> {
        seq![
            ('#', Color { r: 200, g: 200, b: 120, a: 255 }),
            ('+', Color { r: 180, g: 180, b: 100, a: 255 }),
            ('-', Color { r: 220, g: 220, b: 140, a: 255 }),
            ('|', Color { r: 190, g: 190, b: 110, a: 255 }),
            ('r', Color { r: 180, g: 60, b: 60, a: 255 }),
            ('b', Color { r: 60, g: 60, b: 180, a: 255 }),
            ('e', Color { r: 100, g: 255, b: 100, a: 255 }),
        ]
    }

    /// A provider with the standard fallback palette, no bitmaps loaded
    /// yet, and the clock at zero.
    pub fn new() -> (r: TextureManager)
        ensures
            r.wf(),
            r.fallback_colors@ == TextureManager::standard_palette(),
            r.real_textures@.len() == 0,
            r.clock_ms == 0,
            r.default_texture_size == 64,
    {
        let mut fallback_colors: Vec<(char, Color)> = Vec::new();
        fallback_colors.push(('#', Color::new(200, 200, 120, 255)));
        fallback_colors.push(('+', Color::new(180, 180, 100, 255)));
        fallback_colors.push(('-', Color::new(220, 220, 140, 255)));
        fallback_colors.push(('|', Color::new(190, 190, 110, 255)));
        fallback_colors.push(('r', Color::new(180, 60, 60, 255)));
        fallback_colors.push(('b', Color::new(60, 60, 180, 255)));
        fallback_colors.push(('e', Color::new(100, 255, 100, 255)));
        proof {
            assert(fallback_colors@ =~= TextureManager::standard_palette());
        }
        TextureManager {
            real_textures: Vec::new(),
            fallback_colors,
            default_texture_size: 64,
            clock_ms: 0,
        }
    }

    /// Stores a decoded bitmap for a wall symbol; a later call for the
    /// same symbol overrides the earlier one.
    pub fn add_texture(&mut self, ch: char, info: RealTextureInfo)
        requires
            old(self).wf(),
            info.wf(),
        ensures
            final(self).wf(),
            final(self).real_textures@ == old(self).real_textures@.push((ch, info)),
            final(self).fallback_colors == old(self).fallback_colors,
            final(self).clock_ms == old(self).clock_ms,
    {
        self.real_textures.push((ch, info));
    }

    /// Advances the animation clock that drives the exit pulse.
    pub fn set_animation_clock(&mut self, clock_ms: u64)
        requires
            old(self).wf(),
            clock_ms <= 0x1_0000_0000_0000,
        ensures
            final(self).wf(),
            final(self).clock_ms == clock_ms,
            final(self).real_textures == old(self).real_textures,
            final(self).fallback_colors == old(self).fallback_colors,
    {
        self.clock_ms = clock_ms;
    }

    /// The palette color of a wall symbol, neutral gray when unmapped.
    pub fn get_wall_color_fallback(&self, ch: char) -> (c: Color)
        ensures
            c == (match palette_lookup(self.fallback_colors@, ch) {
                Some(col) => col,
                None => Color { r: 130, g: 130, b: 130, a: 255 },
            }),
    {
        let n = self.fallback_colors.len();
        proof {
            assert(self.fallback_colors@.take(n as int) =~= self.fallback_colors@);
        }
        let mut i: usize = n;
        while i > 0
            invariant
                i <= n,
                n == self.fallback_colors@.len(),
                palette_lookup(self.fallback_colors@, ch) == palette_lookup(
                    self.fallback_colors@.take(i as int),
                    ch,
                ),
            decreases i,
        {
            i = i - 1;
            let entry = &self.fallback_colors[i];
            proof {
                assert(self.fallback_colors@.take(i + 1).last() == self.fallback_colors@[i as int]);
                assert(self.fallback_colors@.take(i + 1).drop_last() =~= self.fallback_colors@.take(
                    i as int,
                ));
            }
            if entry.0 == ch {
                return entry.1;
            }
        }
        proof {
            assert(self.fallback_colors@.take(0) =~= Seq::<(char, Color)>::empty());
        }
        Color::gray()
    }

    /// The palette color of a wall symbol; alias kept for callers of the
    /// plain interface.
    pub fn get_wall_color(&self, wall_type: char) -> (c: Color)
        ensures
            c == (match palette_lookup(self.fallback_colors@, wall_type) {
                Some(col) => col,
                None => Color { r: 130, g: 130, b: 130, a: 255 },
            }),
    {
        self.get_wall_color_fallback(wall_type)
    }

    /// Whether a bitmap is stored for this symbol.
    pub fn has_texture(&self, ch: char) -> (r: bool)
        ensures
            r == (texture_index(self.real_textures@, ch) >= 0),
    {
        let n = self.real_textures.len();
        proof {
            assert(self.real_textures@.take(n as int) =~= self.real_textures@);
        }
        let mut i: usize = n;
        while i > 0
            invariant
                i <= n,
                n == self.real_textures@.len(),
                texture_index(self.real_textures@, ch) == texture_index(
                    self.real_textures@.take(i as int),
                    ch,
                ),
            decreases i,
        {
            i = i - 1;
            proof {
                assert(self.real_textures@.take(i + 1).last() == self.real_textures@[i as int]);
                assert(self.real_textures@.take(i + 1).drop_last() =~= self.real_textures@.take(
                    i as int,
                ));
            }
            if self.real_textures[i].0 == ch {
                return true;
            }
        }
        proof {
            assert(self.real_textures@.take(0) =~= Seq::<(char, RealTextureInfo)>::empty());
        }
        false
    }

    /// Whether this symbol renders as a textured wall (the exit included).
    pub fn is_wall_cell(&self, cell: char) -> (r: bool)
        ensures
            r == is_textured_wall_sym(cell),
    {
        cell == '#' || cell == '+' || cell == '-' || cell == '|' || cell == 'r' || cell == 'b'
            || cell == 'g' || cell == 'e'
    }

    /// The nominal square texture edge length.
    pub fn get_texture_size(&self) -> (r: usize)
        ensures
            r == self.default_texture_size,
    {
        self.default_texture_size
    }

    /// The procedural wall color: exactly `wall_simple_spec` on the
    /// stored palette and clock.
    pub fn get_wall_color_simple(&self, ch: char, texture_x: i64, texture_y: i64) -> (c: Color)
        requires
            self.wf(),
            0 <= texture_x <= TEX_ONE,
            0 <= texture_y <= TEX_ONE,
        ensures
            c == wall_simple_spec(
                self.fallback_colors@,
                self.clock_ms as int,
                ch,
                texture_x as int,
                texture_y as int,
            ),
    {
        let base = self.get_wall_color_fallback(ch);
        let f = self.wall_variation(ch, texture_x, texture_y);
        Color {
            r: scale_channel(base.r, f),
            g: scale_channel(base.g, f),
            b: scale_channel(base.b, f),
            a: base.a,
        }
    }

    /// The per-mille variation factor of the symbol's pattern.
    fn wall_variation(&self, ch: char, tx: i64, ty: i64) -> (f: i64)
        requires
            self.wf(),
            0 <= tx <= TEX_ONE,
            0 <= ty <= TEX_ONE,
        ensures
            f == wall_variation_spec(ch, tx as int, ty as int, self.clock_ms as int),
            0 <= f <= 1400,
    {
        if ch == '#' || ch == '+' || ch == '-' || ch == '|' {
            let gx = tx * 8 / TEX_ONE;
            let gy = ty * 8 / TEX_ONE;
            if gx % 4 == 0 && gy % 4 == 0 {
                850
            } else if gx % 8 == 0 || gy % 8 == 0 {
                900
            } else {
                1000
            }
        } else if ch == 'r' {
            let brick_row = ty * 6 / TEX_ONE;
            let brick_col = (tx * 12 + (brick_row % 2) * 6 * TEX_ONE) / TEX_ONE;
            let mortar_h = (ty * 6) % TEX_ONE < TEX_ONE / 10;
            let mortar_v = brick_col % 12 == 0;
            if mortar_h || mortar_v {
                700
            } else {
                proof {
                    lemma_div_pos_is_pos(tx as int * 12 + (ty as int * 6 / (TEX_ONE as int) % 2) * 6
                        * (TEX_ONE as int), TEX_ONE as int);
                }
                1000 + (brick_col % 3) * 50
            }
        } else if ch == 'b' {
            let panel_x = tx * 4 / TEX_ONE;
            let dx = tx - TEX_ONE / 2;
            let dy = ty - TEX_ONE / 2;
            proof {
                assert(0 <= dx * dx <= 0x40000 && 0 <= dy * dy <= 0x40000) by (nonlinear_arith)
                    requires
                        -512 <= dx <= 512,
                        -512 <= dy <= 512,
                ;
            }
            let d2 = (dx * dx + dy * dy) as u64;
            let cd = isqrt(d2);
            proof {
                assert(cd <= 0x800) by (nonlinear_arith)
                    requires
                        cd * cd <= 0x80000,
                ;
            }
            let center_dist = cd as i64;
            proof {
                lemma_div_pos_is_pos(center_dist as int * 200, TEX_ONE as int);
                lemma_div_is_ordered(center_dist as int * 200, 0x800int * 200, TEX_ONE as int);
            }
            900 + (panel_x % 2) * 100 + center_dist * 200 / TEX_ONE
        } else if ch == 'e' {
            let pulse_angle = ((self.clock_ms * 31291 / 1000) % (ANGLE_TURN as u64)) as i64;
            let s = sin_angle(pulse_angle);
            700 + crate::num::div_toward_zero(300 * s, crate::angle::TRIG_ONE)
        } else {
            1000
        }
    }

    /// Samples the wall color for a symbol: the stored bitmap when one
    /// exists, else the procedural pattern.
    pub fn get_wall_color_textured(&self, ch: char, texture_x: i64, texture_y: i64) -> (c: Color)
        requires
            self.wf(),
            0 <= texture_x <= TEX_ONE,
            0 <= texture_y <= TEX_ONE,
        ensures
            c == wall_sample_spec(*self, ch, texture_x as int, texture_y as int),
    {
        let n = self.real_textures.len();
        proof {
            assert(self.real_textures@.take(n as int) =~= self.real_textures@);
        }
        let mut i: usize = n;
        while i > 0
            invariant
                self.wf(),
                i <= n,
                n == self.real_textures@.len(),
                texture_index(self.real_textures@, ch) == texture_index(
                    self.real_textures@.take(i as int),
                    ch,
                ),
                forall|j: int|
                    0 <= j < self.real_textures@.len() ==> (#[trigger] self.real_textures@[j]).1.wf(),
            decreases i,
        {
            i = i - 1;
            proof {
                assert(self.real_textures@.take(i + 1).last() == self.real_textures@[i as int]);
                assert(self.real_textures@.take(i + 1).drop_last() =~= self.real_textures@.take(
                    i as int,
                ));
            }
            if self.real_textures[i].0 == ch {
                return self.real_textures[i].1.get_pixel_color(texture_x, texture_y);
            }
        }
        proof {
            assert(self.real_textures@.take(0) =~= Seq::<(char, RealTextureInfo)>::empty());
        }
        self.get_wall_color_simple(ch, texture_x, texture_y)
    }
}

/// Scales one channel by a per-mille factor, saturating at 255.
pub fn scale_channel(c: u8, f: i64) -> (r: u8)
    requires
        0 <= f <= 1400,
    ensures
        r == scale_channel_spec(c, f as int),
{
    proof {
        assert(0 <= c as int * f <= 255 * 1400) by (nonlinear_arith)
            requires
                0 <= f <= 1400,
                c <= 255,
        ;
        lemma_div_pos_is_pos(c as int * f, 1000);
    }
    let v = (c as i64) * f / 1000;
    if v > 255 {
        255
    } else {
        v as u8
    }
}

} // verus!
