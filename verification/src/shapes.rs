//! The flat object renderer: simple screen-space shapes for interactive
//! cells, drawn without the depth buffer. Kept alongside the billboard
//! compositor for callers of the plain interface.

use vstd::arithmetic::div_mod::{lemma_div_is_ordered, lemma_div_pos_is_pos};
use vstd::prelude::*;

use crate::angle::{atan2_angle, to_signed_angle, wrap_angle, ANGLE_HALF};
use crate::caster::PROJECTION_PLANE_DISTANCE;
use crate::cells::is_object_cell;
use crate::framebuffer::{Color, Framebuffer};
use crate::maze::MazeData;
use crate::num::{div_toward_zero, isqrt};
use crate::player::Player;
use crate::render::{apply_lighting, calculate_distance_attenuation};
use crate::texture_manager::TextureManager;
use crate::SUB;

verus! {

/// The per-mille screen scale of one object symbol.
pub open spec fn object_scale_spec(c: char) -> int {
    if c == 'k' {
        150
    } else if c == 'c' {
        200
    } else if c == 'l' {
        180
    } else if c == 't' {
        160
    } else {
        150
    }
}

/// The per-mille screen scale of one object symbol.
pub fn get_sprite_scale(obj_type: char) -> (r: i64)
    ensures
        r == object_scale_spec(obj_type),
        100 <= r <= 200,
{
    if obj_type == 'k' {
        150
    } else if obj_type == 'c' {
        200
    } else if obj_type == 'l' {
        180
    } else if obj_type == 't' {
        160
    } else {
        150
    }
}

/// The flat color of one object symbol.
pub open spec fn object_color_spec(c: char) -> Color {
    if c == 'k' {
        Color { r: 255, g: 203, b: 0, a: 255 }
    } else if c == 'c' {
        Color { r: 0, g: 255, b: 255, a: 255 }
    } else if c == 'l' {
        Color { r: 200, g: 122, b: 255, a: 255 }
    } else if c == 't' {
        Color { r: 230, g: 41, b: 55, a: 255 }
    } else {
        Color { r: 255, g: 255, b: 255, a: 255 }
    }
}

/// The flat color of one object symbol.
pub fn get_sprite_color(sprite_type: char) -> (r: Color)
    ensures
        r == object_color_spec(sprite_type),
{
    if sprite_type == 'k' {
        Color::new(255, 203, 0, 255)
    } else if sprite_type == 'c' {
        Color::new(0, 255, 255, 255)
    } else if sprite_type == 'l' {
        Color::new(200, 122, 255, 255)
    } else if sprite_type == 't' {
        Color::new(230, 41, 55, 255)
    } else {
        Color::new(255, 255, 255, 255)
    }
}

/// Paints the key glyph: a solid head block and a two-pixel-high shaft.
pub fn render_key_shape(framebuffer: &mut Framebuffer, start_x: usize, start_y: usize, end_x: usize, end_y: usize)
    requires
        old(framebuffer).wf(),
        start_x <= end_x <= 0x8000,
        start_y <= end_y <= 0x8000,
    ensures
        final(framebuffer).wf(),
        final(framebuffer).width == old(framebuffer).width,
        final(framebuffer).height == old(framebuffer).height,
{
    let mid_y = (start_y + end_y) / 2;
    let quarter_x = start_x + (end_x - start_x) / 4;
    let mut y = start_y;
    while y < mid_y
        invariant
            framebuffer.wf(),
            framebuffer.width == old(framebuffer).width,
            framebuffer.height == old(framebuffer).height,
        decreases mid_y - y,
    {
        let mut x = start_x;
        while x < quarter_x
            invariant
                framebuffer.wf(),
                framebuffer.width == old(framebuffer).width,
                framebuffer.height == old(framebuffer).height,
            decreases quarter_x - x,
        {
            framebuffer.set_pixel(x, y);
            x = x + 1;
        }
        y = y + 1;
    }
    let mut x = quarter_x;
    while x < end_x
        invariant
            framebuffer.wf(),
            framebuffer.width == old(framebuffer).width,
            framebuffer.height == old(framebuffer).height,
            mid_y <= 0x8000,
        decreases end_x - x,
    {
        framebuffer.set_pixel(x, mid_y);
        if mid_y + 1 < framebuffer.height {
            framebuffer.set_pixel(x, mid_y + 1);
        }
        x = x + 1;
    }
}

/// Paints the cross glyph: a two-pixel-wide vertical and horizontal bar.
pub fn render_cross_shape(framebuffer: &mut Framebuffer, start_x: usize, start_y: usize, end_x: usize, end_y: usize)
    requires
        old(framebuffer).wf(),
        start_x <= end_x <= 0x8000,
        start_y <= end_y <= 0x8000,
    ensures
        final(framebuffer).wf(),
        final(framebuffer).width == old(framebuffer).width,
        final(framebuffer).height == old(framebuffer).height,
{
    let mid_x = (start_x + end_x) / 2;
    let mid_y = (start_y + end_y) / 2;
    let mut y = start_y;
    while y < end_y
        invariant
            framebuffer.wf(),
            framebuffer.width == old(framebuffer).width,
            framebuffer.height == old(framebuffer).height,
            mid_x <= 0x8000,
        decreases end_y - y,
    {
        framebuffer.set_pixel(mid_x, y);
        if mid_x + 1 < framebuffer.width {
            framebuffer.set_pixel(mid_x + 1, y);
        }
        y = y + 1;
    }
    let mut x = start_x;
    while x < end_x
        invariant
            framebuffer.wf(),
            framebuffer.width == old(framebuffer).width,
            framebuffer.height == old(framebuffer).height,
            mid_y <= 0x8000,
        decreases end_x - x,
    {
        framebuffer.set_pixel(x, mid_y);
        if mid_y + 1 < framebuffer.height {
            framebuffer.set_pixel(x, mid_y + 1);
        }
        x = x + 1;
    }
}

/// Paints a filled disc around a center.
pub fn render_circle_shape(framebuffer: &mut Framebuffer, center_x: i64, center_y: i64, radius: i64)
    requires
        old(framebuffer).wf(),
        0 <= radius <= 0x80000,
        -0x1_0000 <= center_x <= 0x1_0000,
        -0x1_0000 <= center_y <= 0x1_0000,
    ensures
        final(framebuffer).wf(),
        final(framebuffer).width == old(framebuffer).width,
        final(framebuffer).height == old(framebuffer).height,
{
    proof {
        assert(radius * radius <= 0x80000 * 0x80000) by (nonlinear_arith)
            requires
                0 <= radius <= 0x80000,
        ;
    }
    let radius_sq = radius * radius;
    let mut dy = -radius;
    while dy <= radius
        invariant
            framebuffer.wf(),
            framebuffer.width == old(framebuffer).width,
            framebuffer.height == old(framebuffer).height,
            -0x80000 <= dy,
            0 <= radius <= 0x80000,
            -0x1_0000 <= center_x <= 0x1_0000,
            -0x1_0000 <= center_y <= 0x1_0000,
            radius_sq == radius * radius,
        decreases radius - dy + 1,
    {
        let mut dx = -radius;
        while dx <= radius
            invariant
                framebuffer.wf(),
                framebuffer.width == old(framebuffer).width,
                framebuffer.height == old(framebuffer).height,
                -0x80000 <= dx,
                -0x80000 <= dy <= 0x80000,
                0 <= radius <= 0x80000,
                -0x1_0000 <= center_x <= 0x1_0000,
                -0x1_0000 <= center_y <= 0x1_0000,
                radius_sq == radius * radius,
            decreases radius - dx + 1,
        {
            proof {
                assert(0 <= dx * dx <= 0x100_0000_0000 && 0 <= dy * dy <= 0x100_0000_0000)
                    by (nonlinear_arith)
                    requires
                        -0x80000 <= dx <= 0x80000,
                        -0x80000 <= dy <= 0x80000,
                ;
            }
            if dx * dx + dy * dy <= radius_sq {
                let x = center_x + dx;
                let y = center_y + dy;
                if x >= 0 && y >= 0 && (x as usize) < framebuffer.width && (y as usize)
                    < framebuffer.height {
                    framebuffer.set_pixel(x as usize, y as usize);
                }
            }
            dx = dx + 1;
        }
        dy = dy + 1;
    }
}

/// Paints an upward triangle narrowing linearly with height.
pub fn render_triangle_shape(framebuffer: &mut Framebuffer, start_x: usize, start_y: usize, end_x: usize, end_y: usize)
    requires
        old(framebuffer).wf(),
        start_x <= end_x <= 0x8000,
        start_y <= end_y <= 0x8000,
    ensures
        final(framebuffer).wf(),
        final(framebuffer).width == old(framebuffer).width,
        final(framebuffer).height == old(framebuffer).height,
{
    if end_y <= start_y {
        return;
    }
    let mid_x = (start_x + end_x) / 2;
    let height = end_y - start_y;
    let mut y = start_y;
    while y < end_y
        invariant
            framebuffer.wf(),
            framebuffer.width == old(framebuffer).width,
            framebuffer.height == old(framebuffer).height,
            start_y <= y,
            start_x <= end_x <= 0x8000,
            start_y < end_y <= 0x8000,
            height == end_y - start_y,
            mid_x == (start_x + end_x) / 2,
        decreases end_y - y,
    {
        let progress = ((y - start_y) * 1000) / height;
        proof {
            lemma_div_pos_is_pos((y - start_y) * 1000, height as int);
            lemma_div_is_ordered((y - start_y) * 1000, height as int * 1000, height as int);
            assert((height as int * 1000) / (height as int) == 1000) by (nonlinear_arith)
                requires
                    height >= 1,
            ;
        }
        proof {
            assert(0 <= (end_x - start_x) as int * (1000 - progress) <= (end_x - start_x) as int
                * 1000) by (nonlinear_arith)
                requires
                    0 <= progress <= 1000,
                    start_x <= end_x,
            ;
            lemma_div_pos_is_pos((end_x - start_x) as int * (1000 - progress), 1000);
            lemma_div_is_ordered(
                (end_x - start_x) as int * (1000 - progress),
                (end_x - start_x) as int * 1000,
                1000,
            );
            assert(((end_x - start_x) as int * 1000) / 1000 == (end_x - start_x) as int)
                by (nonlinear_arith);
        }
        let row_width = ((end_x - start_x) * (1000 - progress)) / 1000;
        let row_start = if mid_x > row_width / 2 {
            mid_x - row_width / 2
        } else {
            0
        };
        let row_end = mid_x + row_width / 2;
        let mut x = row_start;
        while x < row_end
            invariant
                framebuffer.wf(),
                framebuffer.width == old(framebuffer).width,
                framebuffer.height == old(framebuffer).height,
                y <= 0x8000,
            decreases row_end - x,
        {
            if x < framebuffer.width {
                framebuffer.set_pixel(x, y);
            }
            x = x + 1;
        }
        y = y + 1;
    }
}

/// Paints a filled rectangle.
pub fn render_square_shape(framebuffer: &mut Framebuffer, start_x: usize, start_y: usize, end_x: usize, end_y: usize)
    requires
        old(framebuffer).wf(),
        start_x <= end_x <= 0x8000,
        start_y <= end_y <= 0x8000,
    ensures
        final(framebuffer).wf(),
        final(framebuffer).width == old(framebuffer).width,
        final(framebuffer).height == old(framebuffer).height,
{
    let mut y = start_y;
    while y < end_y
        invariant
            framebuffer.wf(),
            framebuffer.width == old(framebuffer).width,
            framebuffer.height == old(framebuffer).height,
        decreases end_y - y,
    {
        let mut x = start_x;
        while x < end_x
            invariant
                framebuffer.wf(),
                framebuffer.width == old(framebuffer).width,
                framebuffer.height == old(framebuffer).height,
            decreases end_x - x,
        {
            framebuffer.set_pixel(x, y);
            x = x + 1;
        }
        y = y + 1;
    }
}

/// Picks and paints the glyph of one object symbol within its screen box.
pub fn render_sprite_shape(
    framebuffer: &mut Framebuffer,
    center_x: i64,
    center_y: i64,
    size: i64,
    sprite_type: char,
    brightness: i64,
)
    requires
        old(framebuffer).wf(),
        0 <= size <= 0x100000,
        -0x1_0000 <= center_x <= 0x1_0000,
        -0x1_0000 <= center_y <= 0x1_0000,
        0 <= brightness <= 1000,
    ensures
        final(framebuffer).wf(),
        final(framebuffer).width == old(framebuffer).width,
        final(framebuffer).height == old(framebuffer).height,
{
    let base_color = get_sprite_color(sprite_type);
    let final_color = apply_lighting(base_color, brightness);
    framebuffer.set_current_color(final_color);
    let half_size = size / 2;
    let start_x = if center_x - half_size > 0 {
        (center_x - half_size) as usize
    } else {
        0
    };
    let width_i = framebuffer.width as i64;
    let height_i = framebuffer.height as i64;
    let end_x = if center_x + half_size < width_i {
        (if center_x + half_size > 0 {
            (center_x + half_size) as usize
        } else {
            0
        })
    } else {
        framebuffer.width
    };
    let start_y = if center_y - half_size > 0 {
        (center_y - half_size) as usize
    } else {
        0
    };
    let end_y = if center_y + half_size < height_i {
        (if center_y + half_size > 0 {
            (center_y + half_size) as usize
        } else {
            0
        })
    } else {
        framebuffer.height
    };
    let start_x = if start_x > end_x {
        end_x
    } else {
        start_x
    };
    let start_y = if start_y > end_y {
        end_y
    } else {
        start_y
    };
    if sprite_type == 'k' {
        render_key_shape(framebuffer, start_x, start_y, end_x, end_y);
    } else if sprite_type == 'c' {
        render_cross_shape(framebuffer, start_x, start_y, end_x, end_y);
    } else if sprite_type == 'l' {
        render_circle_shape(framebuffer, center_x, center_y, half_size);
    } else if sprite_type == 't' {
        render_triangle_shape(framebuffer, start_x, start_y, end_x, end_y);
    } else {
        render_square_shape(framebuffer, start_x, start_y, end_x, end_y);
    }
}

/// Projects one object cell to screen space and paints its glyph; objects
/// beyond 400 world units, nearer than one unit, or outside the view cone
/// are culled, and sub-pixel projections are skipped.
pub fn render_simple_sprite(
    framebuffer: &mut Framebuffer,
    player: &Player,
    obj_x: i64,
    obj_y: i64,
    obj_type: char,
    screen_center_y: i64,
)
    requires
        old(framebuffer).wf(),
        player.wf(),
        -0x4000_0000 <= obj_x <= 0x4000_0000,
        -0x4000_0000 <= obj_y <= 0x4000_0000,
        0 <= screen_center_y <= 0x8000,
    ensures
        final(framebuffer).wf(),
        final(framebuffer).width == old(framebuffer).width,
        final(framebuffer).height == old(framebuffer).height,
{
    let dx = obj_x - player.x;
    let dy = obj_y - player.y;
    proof {
        assert(0 <= dx * dx <= 0x4000_0000_0000_0000 && 0 <= dy * dy <= 0x4000_0000_0000_0000)
            by (nonlinear_arith)
            requires
                -0x8000_0000 <= dx <= 0x8000_0000,
                -0x8000_0000 <= dy <= 0x8000_0000,
        ;
    }
    let distance = isqrt((dx * dx) as u64 + (dy * dy) as u64);
    proof {
        assert(distance <= 0x1_0000_0000) by (nonlinear_arith)
            requires
                distance * distance <= 0x8000_0000_0000_0000u64,
        ;
    }
    let distance = distance as i64;
    if distance > 400 * SUB || distance < SUB {
        return;
    }
    let angle_to_object = atan2_angle(dy, dx);
    let relative = to_signed_angle(wrap_angle(angle_to_object - player.a));
    let half_fov = player.fov / 2;
    let magnitude = if relative >= 0 {
        relative
    } else {
        -relative
    };
    if magnitude > half_fov || half_fov <= 0 {
        return;
    }
    let half_width = (framebuffer.width as i64) / 2;
    proof {
        assert(-ANGLE_HALF * 0x4000 <= relative * half_width <= ANGLE_HALF * 0x4000)
            by (nonlinear_arith)
            requires
                -ANGLE_HALF <= relative <= ANGLE_HALF,
                0 <= half_width <= 0x4000,
        ;
    }
    let screen_x = half_width + div_toward_zero(relative * half_width, half_fov);
    let scale = get_sprite_scale(obj_type);
    proof {
        assert(0 <= (framebuffer.height as int) * scale <= 0x8000 * 200) by (nonlinear_arith)
            requires
                0 <= framebuffer.height <= 0x8000,
                0 <= scale <= 200,
        ;
        assert(0 <= (framebuffer.height as int) * scale * ((PROJECTION_PLANE_DISTANCE * SUB) as int)
            <= 0x8000 * 200 * 200) by (nonlinear_arith)
            requires
                0 <= (framebuffer.height as int) * scale <= 0x8000 * 200,
                PROJECTION_PLANE_DISTANCE == 100,
                SUB == 2,
        ;
        lemma_div_pos_is_pos(
            (framebuffer.height as int) * scale * ((PROJECTION_PLANE_DISTANCE * SUB) as int),
            distance as int * 1000,
        );
        lemma_div_is_ordered(
            (framebuffer.height as int) * scale * ((PROJECTION_PLANE_DISTANCE * SUB) as int),
            0x8000int * 200 * 200,
            distance as int * 1000,
        );
        assert((0x8000int * 200 * 200) / (distance as int * 1000) <= 0x100000) by (nonlinear_arith)
            requires
                distance >= 2,
        ;
    }
    let sprite_size = (framebuffer.height as i64) * scale * (PROJECTION_PLANE_DISTANCE * SUB) / (
    distance * 1000);
    if sprite_size < 2 * SUB {
        return;
    }
    let brightness = calculate_distance_attenuation(distance);
    let clamped_x = if screen_x < -0x1_0000 {
        -0x1_0000
    } else if screen_x > 0x1_0000 {
        0x1_0000
    } else {
        screen_x
    };
    render_sprite_shape(framebuffer, clamped_x, screen_center_y, sprite_size, obj_type, brightness);
}

/// Walks the maze and paints the glyph of every object cell, centered in
/// its cell, through the flat projector.
pub fn render_world_objects(
    framebuffer: &mut Framebuffer,
    maze: &MazeData,
    _texture_manager: &TextureManager,
    player: &Player,
    block_size: usize,
)
    requires
        old(framebuffer).wf(),
        maze.wf(),
        player.wf(),
        0 < block_size <= 0x10000,
        maze.view_grid().len() <= 0x2000,
        forall|i: int|
            0 <= i < maze.view_grid().len() ==> (#[trigger] maze.view_grid()[i]).len() <= 0x2000,
    ensures
        final(framebuffer).wf(),
        final(framebuffer).width == old(framebuffer).width,
        final(framebuffer).height == old(framebuffer).height,
{
    if maze.is_empty() {
        return;
    }
    let ghost g = maze.view_grid();
    let screen_center_y = framebuffer.height / 2;
    let height = maze.grid.len();
    let mut row_idx: usize = 0;
    while row_idx < height
        invariant
            framebuffer.wf(),
            framebuffer.width == old(framebuffer).width,
            framebuffer.height == old(framebuffer).height,
            maze.wf(),
            player.wf(),
            g == maze.view_grid(),
            height == g.len(),
            g.len() <= 0x2000,
            forall|i: int| 0 <= i < g.len() ==> (#[trigger] g[i]).len() <= 0x2000,
            0 < block_size <= 0x10000,
            screen_center_y <= 0x4000,
            0 <= row_idx <= height,
        decreases height - row_idx,
    {
        let row_len = maze.grid[row_idx].len();
        proof {
            assert(g[row_idx as int] == maze.grid@[row_idx as int]@);
        }
        let mut col: usize = 0;
        while col < row_len
            invariant
                framebuffer.wf(),
                framebuffer.width == old(framebuffer).width,
                framebuffer.height == old(framebuffer).height,
                maze.wf(),
                player.wf(),
                g == maze.view_grid(),
                height == g.len(),
                g.len() <= 0x2000,
                row_idx < height,
                g[row_idx as int] == maze.grid@[row_idx as int]@,
                row_len == g[row_idx as int].len(),
                row_len <= 0x2000,
                0 < block_size <= 0x10000,
                screen_center_y <= 0x4000,
                0 <= col <= row_len,
            decreases row_len - col,
        {
            let cell = maze.grid[row_idx][col];
            if is_object_cell(cell) {
                proof {
                    assert(col * block_size * SUB + block_size <= 0x4000_0000) by (nonlinear_arith)
                        requires
                            0 <= col <= 0x1FFF,
                            0 < block_size <= 0x10000,
                            SUB == 2,
                    ;
                    assert(row_idx * block_size * SUB + block_size <= 0x4000_0000)
                        by (nonlinear_arith)
                        requires
                            0 <= row_idx <= 0x1FFF,
                            0 < block_size <= 0x10000,
                            SUB == 2,
                    ;
                }
                let obj_x = (col as i64) * (block_size as i64) * SUB + block_size as i64;
                let obj_y = (row_idx as i64) * (block_size as i64) * SUB + block_size as i64;
                render_simple_sprite(
                    framebuffer,
                    player,
                    obj_x,
                    obj_y,
                    cell,
                    screen_center_y as i64,
                );
            }
            col = col + 1;
        }
        row_idx = row_idx + 1;
    }
}

} // verus!
