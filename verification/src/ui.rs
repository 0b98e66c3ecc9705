//! HUD, menus, minimap and the built-in 5x7 bitmap font, all painted into
//! the framebuffer. Input handling and timing live outside the library;
//! the animated screens take the frame clock as a parameter.

use vstd::arithmetic::div_mod::{lemma_div_is_ordered, lemma_div_pos_is_pos};
use vstd::prelude::*;

use crate::angle::{cos_angle, sin_angle, wrap_angle, TRIG_ONE};
use crate::framebuffer::{Color, Framebuffer};
use crate::game_state::GameData;
use crate::maze::Maze;
use crate::num::div_toward_zero;
use crate::player::Player;
use crate::notification::int_text;
use crate::SUB;

verus! {

/// Font glyph width, in pixels.
pub const FONT_WIDTH: usize = 5;

/// Font glyph height, in pixels.
pub const FONT_HEIGHT: usize = 7;

/// The 5x7 bitmap of one character, row-major, 1 for a lit pixel; letters
/// match either case, and unknown characters render as a filled block.
pub fn get_char_bitmap(c: char) -> (r: [u8; 35])
{
    if c == 'A' || c == 'a' {
        [0,1,1,1,0, 1,0,0,0,1, 1,0,0,0,1, 1,1,1,1,1, 1,0,0,0,1, 1,0,0,0,1, 1,0,0,0,1]
    } else if c == 'B' || c == 'b' {
        [1,1,1,1,0, 1,0,0,0,1, 1,0,0,0,1, 1,1,1,1,0, 1,0,0,0,1, 1,0,0,0,1, 1,1,1,1,0]
    } else if c == 'C' || c == 'c' {
        [0,1,1,1,0, 1,0,0,0,1, 1,0,0,0,0, 1,0,0,0,0, 1,0,0,0,0, 1,0,0,0,1, 0,1,1,1,0]
    } else if c == 'D' || c == 'd' {
        [1,1,1,1,0, 1,0,0,0,1, 1,0,0,0,1, 1,0,0,0,1, 1,0,0,0,1, 1,0,0,0,1, 1,1,1,1,0]
    } else if c == 'E' || c == 'e' {
        [1,1,1,1,1, 1,0,0,0,0, 1,0,0,0,0, 1,1,1,1,0, 1,0,0,0,0, 1,0,0,0,0, 1,1,1,1,1]
    } else if c == 'F' || c == 'f' {
        [1,1,1,1,1, 1,0,0,0,0, 1,0,0,0,0, 1,1,1,1,0, 1,0,0,0,0, 1,0,0,0,0, 1,0,0,0,0]
    } else if c == 'G' || c == 'g' {
        [0,1,1,1,0, 1,0,0,0,1, 1,0,0,0,0, 1,0,1,1,1, 1,0,0,0,1, 1,0,0,0,1, 0,1,1,1,0]
    } else if c == 'H' || c == 'h' {
        [1,0,0,0,1, 1,0,0,0,1, 1,0,0,0,1, 1,1,1,1,1, 1,0,0,0,1, 1,0,0,0,1, 1,0,0,0,1]
    } else if c == 'I' || c == 'i' {
        [1,1,1,1,1, 0,0,1,0,0, 0,0,1,0,0, 0,0,1,0,0, 0,0,1,0,0, 0,0,1,0,0, 1,1,1,1,1]
    } else if c == 'J' || c == 'j' {
        [0,0,1,1,1, 0,0,0,1,0, 0,0,0,1,0, 0,0,0,1,0, 1,0,0,1,0, 1,0,0,1,0, 0,1,1,0,0]
    } else if c == 'K' || c == 'k' {
        [1,0,0,0,1, 1,0,0,1,0, 1,0,1,0,0, 1,1,0,0,0, 1,0,1,0,0, 1,0,0,1,0, 1,0,0,0,1]
    } else if c == 'L' || c == 'l' {
        [1,0,0,0,0, 1,0,0,0,0, 1,0,0,0,0, 1,0,0,0,0, 1,0,0,0,0, 1,0,0,0,0, 1,1,1,1,1]
    } else if c == 'M' || c == 'm' {
        [1,0,0,0,1, 1,1,0,1,1, 1,0,1,0,1, 1,0,1,0,1, 1,0,0,0,1, 1,0,0,0,1, 1,0,0,0,1]
    } else if c == 'N' || c == 'n' {
        [1,0,0,0,1, 1,1,0,0,1, 1,0,1,0,1, 1,0,1,0,1, 1,0,0,1,1, 1,0,0,0,1, 1,0,0,0,1]
    } else if c == 'O' || c == 'o' {
        [0,1,1,1,0, 1,0,0,0,1, 1,0,0,0,1, 1,0,0,0,1, 1,0,0,0,1, 1,0,0,0,1, 0,1,1,1,0]
    } else if c == 'P' || c == 'p' {
        [1,1,1,1,0, 1,0,0,0,1, 1,0,0,0,1, 1,1,1,1,0, 1,0,0,0,0, 1,0,0,0,0, 1,0,0,0,0]
    } else if c == 'Q' || c == 'q' {
        [0,1,1,1,0, 1,0,0,0,1, 1,0,0,0,1, 1,0,0,0,1, 1,0,1,0,1, 1,0,0,1,0, 0,1,1,0,1]
    } else if c == 'R' || c == 'r' {
        [1,1,1,1,0, 1,0,0,0,1, 1,0,0,0,1, 1,1,1,1,0, 1,0,1,0,0, 1,0,0,1,0, 1,0,0,0,1]
    } else if c == 'S' || c == 's' {
        [0,1,1,1,1, 1,0,0,0,0, 1,0,0,0,0, 0,1,1,1,0, 0,0,0,0,1, 0,0,0,0,1, 1,1,1,1,0]
    } else if c == 'T' || c == 't' {
        [1,1,1,1,1, 0,0,1,0,0, 0,0,1,0,0, 0,0,1,0,0, 0,0,1,0,0, 0,0,1,0,0, 0,0,1,0,0]
    } else if c == 'U' || c == 'u' {
        [1,0,0,0,1, 1,0,0,0,1, 1,0,0,0,1, 1,0,0,0,1, 1,0,0,0,1, 1,0,0,0,1, 0,1,1,1,0]
    } else if c == 'V' || c == 'v' {
        [1,0,0,0,1, 1,0,0,0,1, 1,0,0,0,1, 1,0,0,0,1, 1,0,0,0,1, 0,1,0,1,0, 0,0,1,0,0]
    } else if c == 'W' || c == 'w' {
        [1,0,0,0,1, 1,0,0,0,1, 1,0,0,0,1, 1,0,1,0,1, 1,0,1,0,1, 1,1,0,1,1, 1,0,0,0,1]
    } else if c == 'X' || c == 'x' {
        [1,0,0,0,1, 1,0,0,0,1, 0,1,0,1,0, 0,0,1,0,0, 0,1,0,1,0, 1,0,0,0,1, 1,0,0,0,1]
    } else if c == 'Y' || c == 'y' {
        [1,0,0,0,1, 1,0,0,0,1, 1,0,0,0,1, 0,1,0,1,0, 0,0,1,0,0, 0,0,1,0,0, 0,0,1,0,0]
    } else if c == 'Z' || c == 'z' {
        [1,1,1,1,1, 0,0,0,0,1, 0,0,0,1,0, 0,0,1,0,0, 0,1,0,0,0, 1,0,0,0,0, 1,1,1,1,1]
    } else if c == '0' {
        [0,1,1,1,0, 1,0,0,0,1, 1,0,0,1,1, 1,0,1,0,1, 1,1,0,0,1, 1,0,0,0,1, 0,1,1,1,0]
    } else if c == '1' {
        [0,0,1,0,0, 0,1,1,0,0, 0,0,1,0,0, 0,0,1,0,0, 0,0,1,0,0, 0,0,1,0,0, 0,1,1,1,0]
    } else if c == '2' {
        [0,1,1,1,0, 1,0,0,0,1, 0,0,0,0,1, 0,0,0,1,0, 0,0,1,0,0, 0,1,0,0,0, 1,1,1,1,1]
    } else if c == '3' {
        [1,1,1,1,1, 0,0,0,0,1, 0,0,0,1,0, 0,0,1,1,0, 0,0,0,0,1, 1,0,0,0,1, 0,1,1,1,0]
    } else if c == '4' {
        [0,0,0,1,0, 0,0,1,1,0, 0,1,0,1,0, 1,0,0,1,0, 1,1,1,1,1, 0,0,0,1,0, 0,0,0,1,0]
    } else if c == '5' {
        [1,1,1,1,1, 1,0,0,0,0, 1,1,1,1,0, 0,0,0,0,1, 0,0,0,0,1, 1,0,0,0,1, 0,1,1,1,0]
    } else if c == '6' {
        [0,1,1,1,0, 1,0,0,0,1, 1,0,0,0,0, 1,1,1,1,0, 1,0,0,0,1, 1,0,0,0,1, 0,1,1,1,0]
    } else if c == '7' {
        [1,1,1,1,1, 0,0,0,0,1, 0,0,0,1,0, 0,0,1,0,0, 0,1,0,0,0, 0,1,0,0,0, 0,1,0,0,0]
    } else if c == '8' {
        [0,1,1,1,0, 1,0,0,0,1, 1,0,0,0,1, 0,1,1,1,0, 1,0,0,0,1, 1,0,0,0,1, 0,1,1,1,0]
    } else if c == '9' {
        [0,1,1,1,0, 1,0,0,0,1, 1,0,0,0,1, 0,1,1,1,1, 0,0,0,0,1, 1,0,0,0,1, 0,1,1,1,0]
    } else if c == ':' {
        [0,0,0,0,0, 0,0,1,0,0, 0,0,1,0,0, 0,0,0,0,0, 0,0,1,0,0, 0,0,1,0,0, 0,0,0,0,0]
    } else if c == '!' {
        [0,0,1,0,0, 0,0,1,0,0, 0,0,1,0,0, 0,0,1,0,0, 0,0,1,0,0, 0,0,0,0,0, 0,0,1,0,0]
    } else if c == '/' {
        [0,0,0,0,1, 0,0,0,1,0, 0,0,0,1,0, 0,0,1,0,0, 0,1,0,0,0, 0,1,0,0,0, 1,0,0,0,0]
    } else if c == '-' {
        [0,0,0,0,0, 0,0,0,0,0, 0,0,0,0,0, 1,1,1,1,1, 0,0,0,0,0, 0,0,0,0,0, 0,0,0,0,0]
    } else if c == '(' {
        [0,0,0,1,0, 0,0,1,0,0, 0,1,0,0,0, 0,1,0,0,0, 0,1,0,0,0, 0,0,1,0,0, 0,0,0,1,0]
    } else if c == ')' {
        [0,1,0,0,0, 0,0,1,0,0, 0,0,0,1,0, 0,0,0,1,0, 0,0,0,1,0, 0,0,1,0,0, 0,1,0,0,0]
    } else if c == ' ' {
        [0,0,0,0,0, 0,0,0,0,0, 0,0,0,0,0, 0,0,0,0,0, 0,0,0,0,0, 0,0,0,0,0, 0,0,0,0,0]
    } else {
        [1,1,1,1,1, 1,0,0,0,1, 1,0,1,0,1, 1,0,0,0,1, 1,0,1,0,1, 1,0,0,0,1, 1,1,1,1,1]
    }
}

/// Paints one glyph with its top-left corner at (`x`, `y`).
pub fn render_char(framebuffer: &mut Framebuffer, c: char, x: usize, y: usize)
    requires
        old(framebuffer).wf(),
        x <= 0x40000,
        y <= 0x40000,
    ensures
        final(framebuffer).wf(),
        final(framebuffer).width == old(framebuffer).width,
        final(framebuffer).height == old(framebuffer).height,
{
    let bitmap = get_char_bitmap(c);
    let mut row: usize = 0;
    while row < FONT_HEIGHT
        invariant
            framebuffer.wf(),
            framebuffer.width == old(framebuffer).width,
            framebuffer.height == old(framebuffer).height,
            x <= 0x40000,
            y <= 0x40000,
            row <= FONT_HEIGHT,
        decreases FONT_HEIGHT - row,
    {
        let mut col: usize = 0;
        while col < FONT_WIDTH
            invariant
                framebuffer.wf(),
                framebuffer.width == old(framebuffer).width,
                framebuffer.height == old(framebuffer).height,
                x <= 0x40000,
                y <= 0x40000,
                row < FONT_HEIGHT,
                col <= FONT_WIDTH,
        decreases FONT_WIDTH - col,
        {
            let index = row * FONT_WIDTH + col;
            proof {
                assert(row * 5 + col < 35) by (nonlinear_arith)
                    requires
                        row < 7,
                        col < 5,
                ;
            }
            if bitmap[index] == 1 {
                if x + col < framebuffer.width && y + row < framebuffer.height {
                    framebuffer.set_pixel(x + col, y + row);
                }
            }
            col = col + 1;
        }
        row = row + 1;
    }
}

/// Paints a text line with the current color, glyphs six pixels apart,
/// clipped at the right frame edge.
pub fn render_text(framebuffer: &mut Framebuffer, text: &str, x: usize, y: usize)
    requires
        old(framebuffer).wf(),
        x <= 0x10000,
        y <= 0x10000,
    ensures
        final(framebuffer).wf(),
        final(framebuffer).width == old(framebuffer).width,
        final(framebuffer).height == old(framebuffer).height,
{
    let n = text.unicode_len();
    let mut i: usize = 0;
    while i < n
        invariant
            framebuffer.wf(),
            framebuffer.width == old(framebuffer).width,
            framebuffer.height == old(framebuffer).height,
            n == text@.len(),
            x <= 0x10000,
            y <= 0x10000,
            0 <= i <= n,
            i <= 0x8001,
        decreases n - i,
    {
        if i > 0x8000 {
            break;
        }
        proof {
            assert(i * (5 + 1) <= 0x8000 * 6) by (nonlinear_arith)
                requires
                    i <= 0x8000,
            ;
        }
        let char_x = x + i * (FONT_WIDTH + 1);
        if char_x < framebuffer.width {
            let c = text.get_char(i);
            render_char(framebuffer, c, char_x, y);
        }
        i = i + 1;
    }
}

/// Paints a text line scaled up by an integer factor.
pub fn render_text_with_scale(framebuffer: &mut Framebuffer, text: &str, x: usize, y: usize, scale: usize)
    requires
        old(framebuffer).wf(),
        x <= 0x10000,
        y <= 0x10000,
        1 <= scale <= 8,
    ensures
        final(framebuffer).wf(),
        final(framebuffer).width == old(framebuffer).width,
        final(framebuffer).height == old(framebuffer).height,
{
    let n = text.unicode_len();
    let mut i: usize = 0;
    while i < n
        invariant
            framebuffer.wf(),
            framebuffer.width == old(framebuffer).width,
            framebuffer.height == old(framebuffer).height,
            n == text@.len(),
            x <= 0x10000,
            y <= 0x10000,
            1 <= scale <= 8,
            0 <= i <= n,
            i <= 0x8001,
        decreases n - i,
    {
        if i > 0x8000 {
            break;
        }
        let c = text.get_char(i);
        let bitmap = get_char_bitmap(c);
        proof {
            assert(0 <= i * (5 * scale + 2) <= 0x8000 * 42 && 5 * scale + 2 <= 42)
                by (nonlinear_arith)
                requires
                    i <= 0x8000,
                    1 <= scale <= 8,
            ;
        }
        let char_x = x + i * (FONT_WIDTH * scale + 2);
        if char_x > 0x60000 {
            break;
        }
        let mut row: usize = 0;
        while row < FONT_HEIGHT
            invariant
                framebuffer.wf(),
                framebuffer.width == old(framebuffer).width,
                framebuffer.height == old(framebuffer).height,
                char_x <= 0x60000,
                x <= 0x10000,
                y <= 0x10000,
                1 <= scale <= 8,
                row <= FONT_HEIGHT,
            decreases FONT_HEIGHT - row,
        {
            let mut col: usize = 0;
            while col < FONT_WIDTH
                invariant
                    framebuffer.wf(),
                    framebuffer.width == old(framebuffer).width,
                    framebuffer.height == old(framebuffer).height,
                    char_x <= 0x60000,
                    x <= 0x10000,
                    y <= 0x10000,
                    1 <= scale <= 8,
                    row < FONT_HEIGHT,
                    col <= FONT_WIDTH,
                decreases FONT_WIDTH - col,
            {
                let index = row * FONT_WIDTH + col;
                proof {
                    assert(row * 5 + col < 35) by (nonlinear_arith)
                        requires
                            row < 7,
                            col < 5,
                    ;
                }
                if bitmap[index] == 1 {
                    let mut dy: usize = 0;
                    while dy < scale
                        invariant
                            framebuffer.wf(),
                            framebuffer.width == old(framebuffer).width,
                            framebuffer.height == old(framebuffer).height,
                            char_x <= 0x60000,
                            y <= 0x10000,
                            1 <= scale <= 8,
                            row < FONT_HEIGHT,
                            col < FONT_WIDTH,
                            dy <= scale,
                        decreases scale - dy,
                    {
                        let mut dx: usize = 0;
                        while dx < scale
                            invariant
                                framebuffer.wf(),
                                framebuffer.width == old(framebuffer).width,
                                framebuffer.height == old(framebuffer).height,
                                char_x <= 0x60000,
                                y <= 0x10000,
                                1 <= scale <= 8,
                                row < FONT_HEIGHT,
                                col < FONT_WIDTH,
                                dy < scale,
                                dx <= scale,
                            decreases scale - dx,
                        {
                            proof {
                                assert(col * scale <= 40 && row * scale <= 56)
                                    by (nonlinear_arith)
                                    requires
                                        col < 5,
                                        row < 7,
                                        scale <= 8,
                                ;
                            }
                            let px = char_x + col * scale + dx;
                            let py = y + row * scale + dy;
                            if px < framebuffer.width && py < framebuffer.height {
                                framebuffer.set_pixel(px, py);
                            }
                            dx = dx + 1;
                        }
                        dy = dy + 1;
                    }
                }
                col = col + 1;
            }
            row = row + 1;
        }
        i = i + 1;
    }
}

/// Paints a text line horizontally centered at height `y`.
pub fn render_text_centered(framebuffer: &mut Framebuffer, text: &str, y: usize, scale: usize)
    requires
        old(framebuffer).wf(),
        y <= 0x10000,
        1 <= scale <= 8,
    ensures
        final(framebuffer).wf(),
        final(framebuffer).width == old(framebuffer).width,
        final(framebuffer).height == old(framebuffer).height,
{
    let n = text.unicode_len();
    if n > 0x1000 {
        return;
    }
    proof {
        assert(n * (5 * scale + 2) <= 0x1000 * 42) by (nonlinear_arith)
            requires
                n <= 0x1000,
                1 <= scale <= 8,
        ;
    }
    let text_width = n * (FONT_WIDTH * scale + 2);
    let center_x = if framebuffer.width > text_width {
        (framebuffer.width - text_width) / 2
    } else {
        0
    };
    render_text_with_scale(framebuffer, text, center_x, y, scale);
}

/// Paints a full-frame vertical gradient from `color1` to `color2`.
pub fn render_gradient_background(framebuffer: &mut Framebuffer, color1: Color, color2: Color)
    requires
        old(framebuffer).wf(),
    ensures
        final(framebuffer).wf(),
        final(framebuffer).width == old(framebuffer).width,
        final(framebuffer).height == old(framebuffer).height,
{
    let height = framebuffer.height;
    if height == 0 {
        return;
    }
    let mut y: usize = 0;
    while y < height
        invariant
            framebuffer.wf(),
            framebuffer.width == old(framebuffer).width,
            framebuffer.height == old(framebuffer).height,
            height == framebuffer.height,
            0 < height,
            0 <= y <= height,
        decreases height - y,
    {
        let factor = (y as i64) * 1000 / (height as i64);
        proof {
            lemma_div_pos_is_pos(y as int * 1000, height as int);
            lemma_div_is_ordered(y as int * 1000, height as int * 1000, height as int);
            assert((height as int * 1000) / (height as int) == 1000) by (nonlinear_arith)
                requires
                    height > 0,
            ;
        }
        proof {
            lemma_mix_bound(color1.r as int, color2.r as int, factor as int);
            lemma_mix_bound(color1.g as int, color2.g as int, factor as int);
            lemma_mix_bound(color1.b as int, color2.b as int, factor as int);
        }
        let r = ((color1.r as i64) * (1000 - factor) + (color2.r as i64) * factor) / 1000;
        let g = ((color1.g as i64) * (1000 - factor) + (color2.g as i64) * factor) / 1000;
        let b = ((color1.b as i64) * (1000 - factor) + (color2.b as i64) * factor) / 1000;
        framebuffer.set_current_color(Color::new(r as u8, g as u8, b as u8, 255));
        let mut x: usize = 0;
        while x < framebuffer.width
            invariant
                framebuffer.wf(),
                framebuffer.width == old(framebuffer).width,
                framebuffer.height == old(framebuffer).height,
            decreases framebuffer.width - x,
        {
            framebuffer.set_pixel(x, y);
            x = x + 1;
        }
        y = y + 1;
    }
}

/// A per-mille blend of two channels stays a byte.
proof fn lemma_mix_bound(a: int, b: int, f: int)
    requires
        0 <= a <= 255,
        0 <= b <= 255,
        0 <= f <= 1000,
    ensures
        0 <= a * (1000 - f) <= 255000,
        0 <= b * f <= 255000,
        0 <= a * (1000 - f) + b * f <= 255000,
        0 <= (a * (1000 - f) + b * f) / 1000 <= 255,
{
    assert(0 <= a * (1000 - f) <= 255000 && 0 <= b * f <= 255000) by (nonlinear_arith)
        requires
            0 <= a <= 255,
            0 <= b <= 255,
            0 <= f <= 1000,
    ;
    assert(0 <= a * (1000 - f) + b * f <= 255 * 1000) by (nonlinear_arith)
        requires
            0 <= a <= 255,
            0 <= b <= 255,
            0 <= f <= 1000,
    ;
    lemma_div_pos_is_pos(a * (1000 - f) + b * f, 1000);
    lemma_div_is_ordered(a * (1000 - f) + b * f, 255000, 1000);
}

/// Paints a one-pixel rectangle frame.
pub fn render_border_frame(
    framebuffer: &mut Framebuffer,
    x: usize,
    y: usize,
    width: usize,
    height: usize,
    color: Color,
)
    requires
        old(framebuffer).wf(),
        x + width <= 0x10000,
        y + height <= 0x10000,
    ensures
        final(framebuffer).wf(),
        final(framebuffer).width == old(framebuffer).width,
        final(framebuffer).height == old(framebuffer).height,
{
    framebuffer.set_current_color(color);
    let mut px = x;
    while px <= x + width
        invariant
            framebuffer.wf(),
            framebuffer.width == old(framebuffer).width,
            framebuffer.height == old(framebuffer).height,
            x + width <= 0x10000,
            y + height <= 0x10000,
        decreases x + width + 1 - px,
    {
        if px < framebuffer.width {
            if y < framebuffer.height {
                framebuffer.set_pixel(px, y);
            }
            if y + height < framebuffer.height {
                framebuffer.set_pixel(px, y + height);
            }
        }
        px = px + 1;
    }
    let mut py = y;
    while py <= y + height
        invariant
            framebuffer.wf(),
            framebuffer.width == old(framebuffer).width,
            framebuffer.height == old(framebuffer).height,
            x + width <= 0x10000,
            y + height <= 0x10000,
        decreases y + height + 1 - py,
    {
        if py < framebuffer.height {
            if x < framebuffer.width {
                framebuffer.set_pixel(x, py);
            }
            if x + width < framebuffer.width {
                framebuffer.set_pixel(x + width, py);
            }
        }
        py = py + 1;
    }
}

/// Fills a rectangle with the current color, clipped to the frame.
fn fill_rect(framebuffer: &mut Framebuffer, x0: usize, y0: usize, x1: usize, y1: usize)
    requires
        old(framebuffer).wf(),
        x0 <= x1 <= 0x80000,
        y0 <= y1 <= 0x80000,
    ensures
        final(framebuffer).wf(),
        final(framebuffer).width == old(framebuffer).width,
        final(framebuffer).height == old(framebuffer).height,
{
    let mut y = y0;
    while y < y1
        invariant
            framebuffer.wf(),
            framebuffer.width == old(framebuffer).width,
            framebuffer.height == old(framebuffer).height,
            x0 <= x1 <= 0x80000,
        decreases y1 - y,
    {
        let mut x = x0;
        while x < x1
            invariant
                framebuffer.wf(),
                framebuffer.width == old(framebuffer).width,
                framebuffer.height == old(framebuffer).height,
            decreases x1 - x,
        {
            if x < framebuffer.width && y < framebuffer.height {
                framebuffer.set_pixel(x, y);
            }
            x = x + 1;
        }
        y = y + 1;
    }
}

/// Paints the frame-rate readout in its corner box, color-coded by rate.
pub fn render_fps(framebuffer: &mut Framebuffer, fps: i64)
    requires
        old(framebuffer).wf(),
    ensures
        final(framebuffer).wf(),
        final(framebuffer).width == old(framebuffer).width,
        final(framebuffer).height == old(framebuffer).height,
{
    framebuffer.set_current_color(Color::new(0, 0, 0, 180));
    fill_rect(framebuffer, 5, 5, 95, 25);
    let color = if fps >= 50 {
        Color::new(0, 228, 48, 255)
    } else if fps >= 30 {
        Color::new(253, 249, 0, 255)
    } else {
        Color::new(230, 41, 55, 255)
    };
    framebuffer.set_current_color(color);
    let mut text = String::new();
    text.append("FPS ");
    text.append(int_text(fps).as_str());
    render_text(framebuffer, text.as_str(), 8, 10);
}

/// Paints the welcome screen: title, level menu, controls and the pulsing
/// start prompt, animated by the frame clock.
pub fn render_welcome_screen(framebuffer: &mut Framebuffer, time_ms: i64)
    requires
        old(framebuffer).wf(),
        0 <= time_ms <= 0x10_0000_0000,
    ensures
        final(framebuffer).wf(),
        final(framebuffer).width == old(framebuffer).width,
        final(framebuffer).height == old(framebuffer).height,
{
    render_gradient_background(
        framebuffer,
        Color::new(10, 15, 25, 255),
        Color::new(40, 30, 50, 255),
    );
    let center_x = framebuffer.width / 2;
    let center_y = framebuffer.height / 2;
    if framebuffer.width >= 100 && framebuffer.height >= 160 {
        render_border_frame(
            framebuffer,
            50,
            80,
            framebuffer.width - 100,
            framebuffer.height - 160,
            Color::new(100, 100, 150, 255),
        );
    }
    framebuffer.set_current_color(Color::new(30, 30, 30, 255));
    render_text_centered(framebuffer, "THE BACKROOMS", 120, 4);
    render_text_centered(framebuffer, "ESCAPE", 170, 4);
    framebuffer.set_current_color(Color::new(220, 200, 100, 255));
    render_text_centered(framebuffer, "THE BACKROOMS", 117, 4);
    render_text_centered(framebuffer, "ESCAPE", 167, 4);
    framebuffer.set_current_color(Color::new(180, 180, 180, 255));
    render_text_centered(framebuffer, "UNA AVENTURA EN JUNTO A UN RAYCASTER 3D", 220, 1);
    let menu_start_y = if center_y >= 50 {
        center_y - 50
    } else {
        0
    };
    if center_x >= 200 && menu_start_y >= 20 {
        render_border_frame(
            framebuffer,
            center_x - 200,
            menu_start_y - 20,
            400,
            160,
            Color::new(80, 80, 120, 255),
        );
    }
    framebuffer.set_current_color(Color::new(200, 200, 250, 255));
    if menu_start_y >= 5 {
        render_text_centered(framebuffer, "SELECCIONA EL NIVEL", menu_start_y - 5, 2);
    }
    framebuffer.set_current_color(Color::new(255, 215, 0, 255));
    render_text_centered(framebuffer, "1 - THE YELLOW HALLS     (PRINCIPIANTE)", menu_start_y + 40, 1);
    framebuffer.set_current_color(Color::new(255, 69, 0, 255));
    render_text_centered(framebuffer, "2 - THE RED CHAMBERS     (INTERMEDIO)", menu_start_y + 65, 1);
    framebuffer.set_current_color(Color::new(138, 43, 226, 255));
    render_text_centered(framebuffer, "3 - THE FINAL ESCAPE     (AVANZADO)", menu_start_y + 90, 1);
    let controls_y = if framebuffer.height >= 180 {
        framebuffer.height - 180
    } else {
        0
    };
    if framebuffer.width >= 160 && controls_y >= 10 {
        render_border_frame(
            framebuffer,
            80,
            controls_y - 10,
            framebuffer.width - 160,
            140,
            Color::new(60, 60, 100, 255),
        );
    }
    framebuffer.set_current_color(Color::new(150, 200, 255, 255));
    render_text_centered(framebuffer, "CONTROLES", controls_y + 5, 2);
    framebuffer.set_current_color(Color::new(200, 200, 200, 255));
    render_text_centered(framebuffer, "WASD / ARROWS - MOVERTE Y ROTAR", controls_y + 35, 1);
    render_text_centered(framebuffer, "MOUSE         - MIRAR ALREDEDOR", controls_y + 50, 1);
    render_text_centered(framebuffer, "R             - RESETEAR NIVEL", controls_y + 65, 1);
    render_text_centered(
        framebuffer,
        "JUNTA TODAS LAS LLAVES Y DESBLOQUEA EL PORTAL!",
        controls_y + 95,
        1,
    );
    render_text_centered(framebuffer, "CUIDADO CON LAS TRAMPAS", controls_y + 110, 1);
    let pulse = pulse_offset(time_ms, 3, 10);
    let green_r = (100 + pulse) as u8;
    framebuffer.set_current_color(Color::new(green_r, 255, 100, 255));
    if framebuffer.height >= 40 {
        render_text_centered(
            framebuffer,
            "PRESIONA 1, 2 O 3 PARA ELEGIR UN NIVEL",
            framebuffer.height - 40,
            1,
        );
    }
}

/// The magnitude of a sinusoidal pulse of the frame clock: rate in
/// radians per second, amplitude `amp`.
fn pulse_offset(time_ms: i64, rate: i64, amp: i64) -> (r: i64)
    requires
        0 <= time_ms <= 0x10_0000_0000,
        1 <= rate <= 8,
        0 <= amp <= 100,
    ensures
        0 <= r <= amp,
{
    proof {
        assert(0 <= time_ms * rate <= 0x80_0000_0000) by (nonlinear_arith)
            requires
                0 <= time_ms <= 0x10_0000_0000,
                1 <= rate <= 8,
        ;
    }
    let angle = wrap_angle(time_ms * rate * 10430 / 1000);
    let s = sin_angle(angle);
    proof {
        assert(-100 * TRIG_ONE <= amp * s <= 100 * TRIG_ONE) by (nonlinear_arith)
            requires
                0 <= amp <= 100,
                -TRIG_ONE <= s <= TRIG_ONE,
        ;
        assert(-(amp as int) * TRIG_ONE <= amp as int * s as int <= (amp as int) * TRIG_ONE)
            by (nonlinear_arith)
            requires
                0 <= amp,
                -TRIG_ONE <= s <= TRIG_ONE,
        ;
        if amp as int * s as int >= 0 {
            lemma_div_is_ordered(amp as int * s as int, amp as int * TRIG_ONE, TRIG_ONE as int);
        } else {
            lemma_div_is_ordered(-(amp as int * s as int), amp as int * TRIG_ONE, TRIG_ONE as int);
        }
        assert((amp as int * (TRIG_ONE as int)) / (TRIG_ONE as int) == amp as int)
            by (nonlinear_arith)
            requires
                TRIG_ONE == 65536,
        ;
    }
    let v = div_toward_zero(amp * s, TRIG_ONE);
    if v >= 0 {
        v
    } else {
        -v
    }
}

/// Paints the game-over screen, animated by the frame clock.
pub fn render_game_over(framebuffer: &mut Framebuffer, time_ms: i64)
    requires
        old(framebuffer).wf(),
        0 <= time_ms <= 0x10_0000_0000,
    ensures
        final(framebuffer).wf(),
        final(framebuffer).width == old(framebuffer).width,
        final(framebuffer).height == old(framebuffer).height,
{
    render_gradient_background(
        framebuffer,
        Color::new(60, 10, 10, 255),
        Color::new(30, 5, 5, 255),
    );
    let center_y = framebuffer.height / 2;
    if framebuffer.width >= 200 && center_y >= 100 {
        render_border_frame(
            framebuffer,
            100,
            center_y - 100,
            framebuffer.width - 200,
            200,
            Color::new(150, 50, 50, 255),
        );
    }
    if center_y >= 73 {
        framebuffer.set_current_color(Color::new(50, 0, 0, 255));
        render_text_centered(framebuffer, "GAME OVER", center_y - 70, 4);
        framebuffer.set_current_color(Color::new(255, 100, 100, 255));
        render_text_centered(framebuffer, "GAME OVER", center_y - 73, 4);
    }
    if center_y >= 20 {
        framebuffer.set_current_color(Color::new(200, 150, 150, 255));
        render_text_centered(framebuffer, "TE PERDISTE EN LOS BACKROOMS...", center_y - 20, 1);
    }
    let pulse = pulse_offset(time_ms, 4, 20);
    framebuffer.set_current_color(Color::new(255, (255 - pulse) as u8, 255, 255));
    render_text_centered(
        framebuffer,
        "PRESIONA ESPACIO PARA VOLVER AL MENU",
        center_y + 20,
        1,
    );
}

/// Paints the victory screen for the finished level, animated by the
/// frame clock.
pub fn render_victory(framebuffer: &mut Framebuffer, time_ms: i64, level: usize)
    requires
        old(framebuffer).wf(),
        0 <= time_ms <= 0x10_0000_0000,
        level <= 0x10000,
    ensures
        final(framebuffer).wf(),
        final(framebuffer).width == old(framebuffer).width,
        final(framebuffer).height == old(framebuffer).height,
{
    render_gradient_background(
        framebuffer,
        Color::new(10, 60, 10, 255),
        Color::new(5, 30, 5, 255),
    );
    let center_y = framebuffer.height / 2;
    if framebuffer.width >= 200 && center_y >= 120 {
        render_border_frame(
            framebuffer,
            100,
            center_y - 120,
            framebuffer.width - 200,
            240,
            Color::new(50, 150, 50, 255),
        );
    }
    if center_y >= 93 {
        framebuffer.set_current_color(Color::new(0, 50, 0, 255));
        render_text_centered(framebuffer, "NIVEL COMPLETADO!", center_y - 90, 3);
        framebuffer.set_current_color(Color::new(100, 255, 100, 255));
        render_text_centered(framebuffer, "NIVEL COMPLETADO!", center_y - 93, 3);
    }
    framebuffer.set_current_color(Color::new(150, 255, 150, 255));
    let pulse = pulse_offset(time_ms, 4, 30);
    if level < 3 {
        if center_y >= 30 {
            let mut t = String::new();
            t.append("NIVEL ");
            t.append(int_text(level as i64).as_str());
            t.append(" COMPLETO!");
            render_text_centered(framebuffer, t.as_str(), center_y - 30, 2);
            render_text_centered(framebuffer, "LISTO PARA LO SIGUIENTE?", center_y - 5, 1);
        }
        framebuffer.set_current_color(Color::new(255, 255, (100 + pulse) as u8, 255));
        let mut t = String::new();
        t.append("PRESIONA ESPACIO PARA INICIAR NIVEL ");
        t.append(int_text(level as i64 + 1).as_str());
        render_text_centered(framebuffer, t.as_str(), center_y + 30, 1);
    } else {
        if center_y >= 30 {
            render_text_centered(framebuffer, "FELICIDADES!", center_y - 30, 2);
            render_text_centered(framebuffer, "ESCAPASTE DE LOS BACKROOMS!", center_y - 5, 1);
        }
        render_text_centered(framebuffer, "ERES LIBRE!", center_y + 15, 1);
        framebuffer.set_current_color(Color::new(255, 255, (100 + pulse) as u8, 255));
        render_text_centered(
            framebuffer,
            "PRESIONA ESPACIO PARA VOLVER A IR AL MENU",
            center_y + 45,
            1,
        );
    }
}

/// Paints the in-game status box: lives, key progress, level, exit state
/// and checkpoint progress.
pub fn render_hud(framebuffer: &mut Framebuffer, game_data: &GameData)
    requires
        old(framebuffer).wf(),
        game_data.notification_manager.wf(),
        0 <= game_data.lives,
        game_data.current_level <= 0x10000,
    ensures
        final(framebuffer).wf(),
        final(framebuffer).width == old(framebuffer).width,
        final(framebuffer).height == old(framebuffer).height,
{
    framebuffer.set_current_color(Color::new(0, 0, 0, 150));
    fill_rect(framebuffer, 5, 5, 200, 120);
    render_border_frame(framebuffer, 5, 5, 195, 115, Color::new(100, 100, 150, 255));
    framebuffer.set_current_color(Color::new(255, 255, 255, 255));
    render_text(framebuffer, "ESTADO", 15, 15);
    let lives_color = if game_data.lives > 2 {
        Color::new(0, 228, 48, 255)
    } else if game_data.lives == 2 {
        Color::new(253, 249, 0, 255)
    } else {
        Color::new(230, 41, 55, 255)
    };
    framebuffer.set_current_color(lives_color);
    let mut lives_text = String::new();
    lives_text.append("VIDAS: ");
    lives_text.append(int_text(game_data.lives).as_str());
    render_text(framebuffer, lives_text.as_str(), 15, 30);
    let keys_color = if game_data.keys_collected >= game_data.keys_needed {
        Color::new(255, 203, 0, 255)
    } else {
        Color::new(253, 249, 0, 255)
    };
    framebuffer.set_current_color(keys_color);
    let mut keys_text = String::new();
    keys_text.append("LLAVES: ");
    keys_text.append(int_text(game_data.keys_collected).as_str());
    keys_text.append("/");
    keys_text.append(int_text(game_data.keys_needed).as_str());
    render_text(framebuffer, keys_text.as_str(), 15, 45);
    framebuffer.set_current_color(Color::new(0, 255, 255, 255));
    let mut level_text = String::new();
    level_text.append("NIVEL: ");
    level_text.append(int_text(game_data.current_level as i64).as_str());
    render_text(framebuffer, level_text.as_str(), 15, 60);
    if game_data.has_key {
        framebuffer.set_current_color(Color::new(0, 228, 48, 255));
        render_text(framebuffer, "PUERTA DESBLOQUEADA!", 15, 75);
    } else {
        framebuffer.set_current_color(Color::new(255, 161, 0, 255));
        render_text(framebuffer, "BUSCA LAS LLAVES!", 15, 75);
    }
    if game_data.current_level > 1 {
        let checkpoints_needed = game_data.current_level - 1;
        let checkpoints_color = if game_data.visited_checkpoints.len() >= checkpoints_needed {
            Color::new(200, 122, 255, 255)
        } else {
            Color::new(130, 130, 130, 255)
        };
        framebuffer.set_current_color(checkpoints_color);
        let have = game_data.visited_checkpoints.len();
        let mut cp_text = String::new();
        cp_text.append("CHECKPOINTS: ");
        cp_text.append(int_text(if have <= 0x10000 { have as i64 } else { 0x10000 }).as_str());
        cp_text.append("/");
        cp_text.append(int_text(checkpoints_needed as i64).as_str());
        render_text(framebuffer, cp_text.as_str(), 15, 90);
    }
}

/// Paints the enhanced status box with the frame rate added.
pub fn render_hud_enhanced(framebuffer: &mut Framebuffer, game_data: &GameData, fps: i64)
    requires
        old(framebuffer).wf(),
        game_data.notification_manager.wf(),
        0 <= game_data.lives,
        game_data.current_level <= 0x10000,
    ensures
        final(framebuffer).wf(),
        final(framebuffer).width == old(framebuffer).width,
        final(framebuffer).height == old(framebuffer).height,
{
    framebuffer.set_current_color(Color::new(0, 0, 0, 150));
    fill_rect(framebuffer, 5, 5, 240, 140);
    render_border_frame(framebuffer, 5, 5, 235, 135, Color::new(100, 100, 150, 255));
    render_hud_body(framebuffer, game_data);
    let fps_color = if fps >= 50 {
        Color::new(0, 228, 48, 255)
    } else if fps >= 30 {
        Color::new(253, 249, 0, 255)
    } else {
        Color::new(230, 41, 55, 255)
    };
    framebuffer.set_current_color(fps_color);
    let mut fps_text = String::new();
    fps_text.append("FPS: ");
    fps_text.append(int_text(fps).as_str());
    render_text(framebuffer, fps_text.as_str(), 15, 105);
}

/// Paints the shared text body of the status box.
fn render_hud_body(framebuffer: &mut Framebuffer, game_data: &GameData)
    requires
        old(framebuffer).wf(),
        0 <= game_data.lives,
        game_data.current_level <= 0x10000,
    ensures
        final(framebuffer).wf(),
        final(framebuffer).width == old(framebuffer).width,
        final(framebuffer).height == old(framebuffer).height,
{
    framebuffer.set_current_color(Color::new(255, 255, 255, 255));
    render_text(framebuffer, "ESTADO", 15, 15);
    let lives_color = if game_data.lives > 2 {
        Color::new(0, 228, 48, 255)
    } else if game_data.lives == 2 {
        Color::new(253, 249, 0, 255)
    } else {
        Color::new(230, 41, 55, 255)
    };
    framebuffer.set_current_color(lives_color);
    let mut lives_text = String::new();
    lives_text.append("VIDAS: ");
    lives_text.append(int_text(game_data.lives).as_str());
    render_text(framebuffer, lives_text.as_str(), 15, 30);
    let keys_color = if game_data.keys_collected >= game_data.keys_needed {
        Color::new(255, 203, 0, 255)
    } else {
        Color::new(253, 249, 0, 255)
    };
    framebuffer.set_current_color(keys_color);
    let mut keys_text = String::new();
    keys_text.append("LLAVES: ");
    keys_text.append(int_text(game_data.keys_collected).as_str());
    keys_text.append("/");
    keys_text.append(int_text(game_data.keys_needed).as_str());
    render_text(framebuffer, keys_text.as_str(), 15, 45);
    framebuffer.set_current_color(Color::new(0, 255, 255, 255));
    let mut level_text = String::new();
    level_text.append("NIVEL: ");
    level_text.append(int_text(game_data.current_level as i64).as_str());
    render_text(framebuffer, level_text.as_str(), 15, 60);
    if game_data.has_key {
        framebuffer.set_current_color(Color::new(0, 228, 48, 255));
        render_text(framebuffer, "PUERTA DESBLOQUEADA!", 15, 75);
    } else {
        framebuffer.set_current_color(Color::new(255, 161, 0, 255));
        render_text(framebuffer, "BUSCA LAS LLAVES!", 15, 75);
    }
    if game_data.current_level > 1 {
        let checkpoints_needed = game_data.current_level - 1;
        let checkpoints_color = if game_data.visited_checkpoints.len() >= checkpoints_needed {
            Color::new(200, 122, 255, 255)
        } else {
            Color::new(130, 130, 130, 255)
        };
        framebuffer.set_current_color(checkpoints_color);
        let have = game_data.visited_checkpoints.len();
        let mut cp_text = String::new();
        cp_text.append("CHECKPOINTS: ");
        cp_text.append(int_text(if have <= 0x10000 { have as i64 } else { 0x10000 }).as_str());
        cp_text.append("/");
        cp_text.append(int_text(checkpoints_needed as i64).as_str());
        render_text(framebuffer, cp_text.as_str(), 15, 90);
    }
}

/// Paints the minimap: the maze cells color-coded, the player as a red
/// dot and a heading line, in the top-right corner.
pub fn render_minimap(framebuffer: &mut Framebuffer, maze: &Maze, player: &Player, block_size: usize)
    requires
        old(framebuffer).wf(),
        player.wf(),
        0 < block_size <= 0x10000,
        maze@.len() <= 0x1000,
        forall|i: int| 0 <= i < maze@.len() ==> (#[trigger] maze@[i])@.len() <= 0x1000,
    ensures
        final(framebuffer).wf(),
        final(framebuffer).width == old(framebuffer).width,
        final(framebuffer).height == old(framebuffer).height,
{
    let minimap_size: usize = 200;
    if framebuffer.width < minimap_size + 15 {
        return;
    }
    let minimap_x = framebuffer.width - minimap_size - 15;
    let minimap_y: usize = 15;
    let maze_height = maze.len();
    let maze_width = if maze_height > 0 {
        maze[0].len()
    } else {
        0
    };
    if maze_width == 0 || maze_height == 0 {
        return;
    }
    let scale_x = (minimap_size - 20) / maze_width;
    let scale_y = (minimap_size - 20) / maze_height;
    let mut scale = if scale_x < scale_y {
        scale_x
    } else {
        scale_y
    };
    if scale < 2 {
        scale = 2;
    }
    proof {
        assert(maze_width * scale <= 0x1000 * 200) by (nonlinear_arith)
            requires
                maze_width <= 0x1000,
                scale <= 200,
        ;
        assert(maze_height * scale <= 0x1000 * 200) by (nonlinear_arith)
            requires
                maze_height <= 0x1000,
                scale <= 200,
        ;
    }
    let maze_pixel_width = maze_width * scale;
    let maze_pixel_height = maze_height * scale;
    let offset_x = if minimap_size > maze_pixel_width {
        (minimap_size - maze_pixel_width) / 2
    } else {
        0
    };
    let offset_y = if minimap_size > maze_pixel_height {
        (minimap_size - maze_pixel_height) / 2
    } else {
        0
    };
    framebuffer.set_current_color(Color::new(0, 0, 0, 200));
    fill_rect(
        framebuffer,
        minimap_x,
        minimap_y,
        minimap_x + minimap_size,
        minimap_y + minimap_size,
    );
    render_border_frame(
        framebuffer,
        minimap_x,
        minimap_y,
        minimap_size,
        minimap_size,
        Color::new(100, 100, 150, 255),
    );
    framebuffer.set_current_color(Color::new(255, 255, 255, 255));
    render_text(framebuffer, "MAPA", minimap_x + 5, minimap_y + 5);
    let mut row_index: usize = 0;
    while row_index < maze_height
        invariant
            framebuffer.wf(),
            framebuffer.width == old(framebuffer).width,
            framebuffer.height == old(framebuffer).height,
            maze_height == maze@.len(),
            maze_height <= 0x1000,
            forall|i: int| 0 <= i < maze@.len() ==> (#[trigger] maze@[i])@.len() <= 0x1000,
            2 <= scale <= 200,
            minimap_x <= 0x8000,
            minimap_y == 15,
            offset_x <= 200,
            offset_y <= 200,
            0 <= row_index <= maze_height,
        decreases maze_height - row_index,
    {
        let row_len = maze[row_index].len();
        let mut col_index: usize = 0;
        while col_index < row_len
            invariant
                framebuffer.wf(),
                framebuffer.width == old(framebuffer).width,
                framebuffer.height == old(framebuffer).height,
                maze_height == maze@.len(),
                maze_height <= 0x1000,
                row_index < maze_height,
                row_len == maze@[row_index as int]@.len(),
                row_len <= 0x1000,
                2 <= scale <= 200,
                minimap_x <= 0x8000,
                minimap_y == 15,
                offset_x <= 200,
                offset_y <= 200,
                0 <= col_index <= row_len,
            decreases row_len - col_index,
        {
            let cell = maze[row_index][col_index];
            if cell != ' ' {
                let color = if cell == 'k' {
                    Color::new(255, 203, 0, 255)
                } else if cell == 'e' {
                    Color::new(0, 228, 48, 255)
                } else if cell == 't' {
                    Color::new(230, 41, 55, 255)
                } else if cell == 'l' {
                    Color::new(200, 122, 255, 255)
                } else if cell == 'c' {
                    Color::new(0, 255, 255, 255)
                } else if crate::cells::is_wall_cell(cell) {
                    Color::new(180, 180, 120, 255)
                } else {
                    Color::new(255, 255, 255, 255)
                };
                framebuffer.set_current_color(color);
                proof {
                    assert(col_index * scale <= 0x1000 * 200) by (nonlinear_arith)
                        requires
                            col_index <= 0x1000,
                            scale <= 200,
                    ;
                    assert(row_index * scale <= 0x1000 * 200) by (nonlinear_arith)
                        requires
                            row_index <= 0x1000,
                            scale <= 200,
                    ;
                }
                if col_index * scale <= 0x8000 && row_index * scale <= 0x8000 {
                    let cell_x = minimap_x + offset_x + col_index * scale;
                    let cell_y = minimap_y + offset_y + row_index * scale;
                    fill_rect(framebuffer, cell_x, cell_y, cell_x + scale, cell_y + scale);
                }
            }
            col_index = col_index + 1;
        }
        row_index = row_index + 1;
    }
    let cell_sub = (block_size as i64) * SUB;
    let gx_i = if player.x >= 0 {
        player.x / cell_sub
    } else {
        -1
    };
    let gy_i = if player.y >= 0 {
        player.y / cell_sub
    } else {
        -1
    };
    if 0 <= gx_i && gx_i <= 0x1000 && 0 <= gy_i && gy_i <= 0x1000 {
        proof {
            assert((gx_i as usize) * scale <= 0x1000 * 200 && (gy_i as usize) * scale <= 0x1000
                * 200) by (nonlinear_arith)
                requires
                    0 <= gx_i <= 0x1000,
                    0 <= gy_i <= 0x1000,
                    scale <= 200,
            ;
        }
        let px_scaled = (gx_i as usize) * scale;
        let py_scaled = (gy_i as usize) * scale;
        if px_scaled > 0x8000 || py_scaled > 0x8000 {
            return;
        }
        let player_map_x = minimap_x + offset_x + px_scaled;
        let player_map_y = minimap_y + offset_y + py_scaled;
        framebuffer.set_current_color(Color::new(230, 41, 55, 255));
        let player_size = if scale / 3 > 3 {
            scale / 3
        } else {
            3
        };
        fill_rect(
            framebuffer,
            player_map_x,
            player_map_y,
            player_map_x + player_size,
            player_map_y + player_size,
        );
        framebuffer.set_current_color(Color::new(0, 121, 241, 255));
        let direction_length = (scale as i64) * 2;
        let cos_a = cos_angle(player.a);
        let sin_a = sin_angle(player.a);
        let mut i: i64 = 0;
        while i < direction_length
            invariant
                framebuffer.wf(),
                framebuffer.width == old(framebuffer).width,
                framebuffer.height == old(framebuffer).height,
                0 <= i,
                direction_length <= 400,
                player_map_x <= 0x20000,
                player_map_y <= 0x20000,
                -TRIG_ONE <= cos_a <= TRIG_ONE,
                -TRIG_ONE <= sin_a <= TRIG_ONE,
            decreases direction_length - i,
        {
            proof {
                assert(-400 * TRIG_ONE <= i * cos_a <= 400 * TRIG_ONE && -400 * TRIG_ONE <= i
                    * sin_a <= 400 * TRIG_ONE) by (nonlinear_arith)
                    requires
                        0 <= i <= 400,
                        -TRIG_ONE <= cos_a <= TRIG_ONE,
                        -TRIG_ONE <= sin_a <= TRIG_ONE,
                ;
                if i * cos_a >= 0 {
                    lemma_div_is_ordered(i as int * cos_a as int, 400 * TRIG_ONE, TRIG_ONE as int);
                } else {
                    lemma_div_is_ordered(
                        -(i as int * cos_a as int),
                        400 * TRIG_ONE,
                        TRIG_ONE as int,
                    );
                }
                if i * sin_a >= 0 {
                    lemma_div_is_ordered(i as int * sin_a as int, 400 * TRIG_ONE, TRIG_ONE as int);
                } else {
                    lemma_div_is_ordered(
                        -(i as int * sin_a as int),
                        400 * TRIG_ONE,
                        TRIG_ONE as int,
                    );
                }
                assert((400 * (TRIG_ONE as int)) / (TRIG_ONE as int) == 400) by (nonlinear_arith);
            }
            let dx = div_toward_zero(i * cos_a, TRIG_ONE);
            let dy = div_toward_zero(i * sin_a, TRIG_ONE);
            let px = player_map_x as i64 + dx;
            let py = player_map_y as i64 + dy;
            if px >= 0 && py >= 0 {
                let pxu = px as usize;
                let pyu = py as usize;
                if pxu < framebuffer.width && pyu < framebuffer.height {
                    framebuffer.set_pixel(pxu, pyu);
                }
                if pxu + 1 < framebuffer.width && pyu + 1 < framebuffer.height {
                    framebuffer.set_pixel(pxu + 1, pyu + 1);
                }
            }
            i = i + 1;
        }
    }
}

/// Paints the full-frame error screen with retry instructions.
pub fn render_error_screen(framebuffer: &mut Framebuffer, error_msg: &str)
    requires
        old(framebuffer).wf(),
    ensures
        final(framebuffer).wf(),
        final(framebuffer).width == old(framebuffer).width,
        final(framebuffer).height == old(framebuffer).height,
{
    framebuffer.set_current_color(Color::new(100, 0, 0, 255));
    let w = framebuffer.width;
    let h = framebuffer.height;
    fill_rect(framebuffer, 0, 0, w, h);
    framebuffer.set_current_color(Color::new(255, 255, 255, 255));
    render_error_text(framebuffer, error_msg, 400, 400);
    render_error_text(framebuffer, "PRESIONA R PARA REINTENTAR", 450, 450);
    render_error_text(framebuffer, "Presiona ESC para salir", 450, 480);
}

/// Paints a crude block per non-space character, for the error screen
/// that must render even without the font path.
pub fn render_error_text(framebuffer: &mut Framebuffer, text: &str, x: usize, y: usize)
    requires
        old(framebuffer).wf(),
        x <= 0x10000,
        y <= 0x10000,
    ensures
        final(framebuffer).wf(),
        final(framebuffer).width == old(framebuffer).width,
        final(framebuffer).height == old(framebuffer).height,
{
    let n = text.unicode_len();
    let mut i: usize = 0;
    while i < n
        invariant
            framebuffer.wf(),
            framebuffer.width == old(framebuffer).width,
            framebuffer.height == old(framebuffer).height,
            n == text@.len(),
            x <= 0x10000,
            y <= 0x10000,
            0 <= i <= n,
            i <= 0x8001,
        decreases n - i,
    {
        if i > 0x8000 {
            break;
        }
        let c = text.get_char(i);
        if c != ' ' {
            let char_x = x + i * 8;
            let mut dx: usize = 0;
            while dx < 6
                invariant
                    framebuffer.wf(),
                    framebuffer.width == old(framebuffer).width,
                    framebuffer.height == old(framebuffer).height,
                    char_x <= 0x60000,
                    y <= 0x10000,
                    dx <= 6,
                decreases 6 - dx,
            {
                let mut dy: usize = 0;
                while dy < 8
                    invariant
                        framebuffer.wf(),
                        framebuffer.width == old(framebuffer).width,
                        framebuffer.height == old(framebuffer).height,
                        char_x <= 0x60000,
                        y <= 0x10000,
                        dx < 6,
                        dy <= 8,
                    decreases 8 - dy,
                {
                    if char_x + dx < framebuffer.width && y + dy < framebuffer.height {
                        framebuffer.set_pixel(char_x + dx, y + dy);
                    }
                    dy = dy + 1;
                }
                dx = dx + 1;
            }
        }
        i = i + 1;
    }
}

} // verus!
