//! The column renderer and frame orchestration: sky and floor gradients,
//! one textured, shaded wall strip per screen column via inverse-distance
//! projection, and the per-column depth values that the sprite compositor
//! reads. Brightness factors are per-mille; `BRIGHT_ONE` is full
//! brightness.

use vstd::arithmetic::div_mod::{lemma_div_is_ordered, lemma_div_pos_is_pos};
use vstd::arithmetic::mul::lemma_mul_inequality;
use vstd::prelude::*;

use crate::angle::{angle_mod, cos_spec, sin_spec, wrap_angle, ANGLE_TURN};
use crate::caster::{
    cast_ray_textured, cast_spec, Intersect, WallSide, MAX_DISTANCE, TEX_ONE,
    PROJECTION_PLANE_DISTANCE,
};
use crate::framebuffer::{Color, Framebuffer};
use crate::maze::MazeData;
use crate::player::Player;
use crate::sprite_manager::SpriteManager;
use crate::texture_manager::{wall_sample_spec, TextureManager};
use crate::SUB;

verus! {

/// Full brightness, per-mille.
pub const BRIGHT_ONE: i64 = 1000;

/// Distance attenuation: brightness falls linearly with distance, the fall
/// capped at 800 per-mille of the 600-world-unit range and scaled by 0.7,
/// and the result floored at 300 so nothing goes fully black.
pub open spec fn distance_attenuation_spec(d: int) -> int {
    let capped = if d * 1000 / (600 * (SUB as int)) > 800 {
        800
    } else {
        d * 1000 / (600 * (SUB as int))
    };
    let bright = 1000 - capped * 7 / 10;
    if bright < 300 {
        300
    } else {
        bright
    }
}

/// Side attenuation: East/West faces are slightly darker than
/// North/South ones, simulating a fixed light direction.
pub open spec fn side_attenuation_spec(side: WallSide) -> int {
    match side {
        WallSide::North | WallSide::South => 1000,
        WallSide::East | WallSide::West => 920,
    }
}

/// A color darkened by a per-mille brightness; alpha is kept.
pub open spec fn apply_lighting_spec(c: Color, brightness: int) -> Color {
    Color {
        r: (c.r * brightness / 1000) as u8,
        g: (c.g * brightness / 1000) as u8,
        b: (c.b * brightness / 1000) as u8,
        a: c.a,
    }
}

/// Computes the distance attenuation for a march distance in subunits.
pub fn calculate_distance_attenuation(distance: i64) -> (r: i64)
    requires
        0 <= distance <= MAX_DISTANCE,
    ensures
        r == distance_attenuation_spec(distance as int),
        300 <= r <= 1000,
{
    proof {
        lemma_div_pos_is_pos(distance as int * 1000, 600 * (SUB as int));
        lemma_div_pos_is_pos(
            (if distance as int * 1000 / (600 * (SUB as int)) > 800 {
                800int
            } else {
                distance as int * 1000 / (600 * (SUB as int))
            }) * 7,
            10,
        );
        lemma_div_is_ordered(
            (if distance as int * 1000 / (600 * (SUB as int)) > 800 {
                800int
            } else {
                distance as int * 1000 / (600 * (SUB as int))
            }) * 7,
            5600,
            10,
        );
    }
    let mut attenuation: i64 = distance * 1000 / (600 * SUB);
    if attenuation > 800 {
        attenuation = 800;
    }
    let bright = 1000 - attenuation * 7 / 10;
    if bright < 300 {
        300
    } else {
        bright
    }
}

/// The side attenuation factor of a struck face.
pub fn calculate_side_attenuation(side: WallSide) -> (r: i64)
    ensures
        r == side_attenuation_spec(side),
        r == 1000 || r == 920,
{
    match side {
        WallSide::North | WallSide::South => 1000,
        WallSide::East | WallSide::West => 920,
    }
}

/// Darkens a color by a per-mille brightness.
pub fn apply_lighting(color: Color, brightness: i64) -> (r: Color)
    requires
        0 <= brightness <= 1000,
    ensures
        r == apply_lighting_spec(color, brightness as int),
{
    proof {
        lemma_channel_bound(color.r as int, brightness as int);
        lemma_channel_bound(color.g as int, brightness as int);
        lemma_channel_bound(color.b as int, brightness as int);
    }
    Color {
        r: ((color.r as i64) * brightness / 1000) as u8,
        g: ((color.g as i64) * brightness / 1000) as u8,
        b: ((color.b as i64) * brightness / 1000) as u8,
        a: color.a,
    }
}

/// A channel darkened by a brightness of at most one stays a byte.
proof fn lemma_channel_bound(c: int, brightness: int)
    requires
        0 <= c <= 255,
        0 <= brightness <= 1000,
    ensures
        0 <= c * brightness / 1000 <= 255,
        c * brightness <= 255000,
{
    assert(0 <= c * brightness <= 255 * 1000) by (nonlinear_arith)
        requires
            0 <= c <= 255,
            0 <= brightness <= 1000,
    ;
    lemma_div_pos_is_pos(c * brightness, 1000);
    lemma_div_is_ordered(c * brightness, 255000, 1000);
}

/// Brightness never increases with distance: of two intersections the
/// nearer one is at least as bright, over the whole attenuation range.
pub proof fn lemma_brightness_monotonic(d1: int, d2: int)
    requires
        0 <= d1 < d2 <= 600 * SUB,
    ensures
        distance_attenuation_spec(d1) >= distance_attenuation_spec(d2),
{
    let den = 600 * (SUB as int);
    lemma_mul_inequality(d1, d2, 1000);
    lemma_div_is_ordered(d1 * 1000, d2 * 1000, den);
    let c1 = if d1 * 1000 / den > 800 {
        800int
    } else {
        d1 * 1000 / den
    };
    let c2 = if d2 * 1000 / den > 800 {
        800int
    } else {
        d2 * 1000 / den
    };
    assert(c1 <= c2);
    lemma_mul_inequality(c1, c2, 7);
    lemma_div_is_ordered(c1 * 7, c2 * 7, 10);
}

/// Wall brightness never increases with distance: for two intersections
/// on the same side, the nearer one's combined brightness is at least the
/// farther one's, over the whole attenuation range.
pub proof fn lemma_wall_brightness_monotonic(d1: int, d2: int, side: WallSide)
    requires
        0 <= d1 < d2 <= 600 * SUB,
    ensures
        distance_attenuation_spec(d1) * side_attenuation_spec(side) / 1000
            >= distance_attenuation_spec(d2) * side_attenuation_spec(side) / 1000,
{
    lemma_brightness_monotonic(d1, d2);
    lemma_mul_inequality(
        distance_attenuation_spec(d2),
        distance_attenuation_spec(d1),
        side_attenuation_spec(side),
    );
    lemma_div_is_ordered(
        distance_attenuation_spec(d2) * side_attenuation_spec(side),
        distance_attenuation_spec(d1) * side_attenuation_spec(side),
        1000,
    );
}

/// The combined per-mille brightness of one wall strip.
pub fn wall_brightness(distance: i64, side: WallSide) -> (r: i64)
    requires
        0 <= distance <= MAX_DISTANCE,
    ensures
        r == distance_attenuation_spec(distance as int) * side_attenuation_spec(side) / 1000,
        0 <= r <= 1000,
{
    let d = calculate_distance_attenuation(distance);
    let s = calculate_side_attenuation(side);
    proof {
        assert(0 <= d * s <= 1000 * 1000) by (nonlinear_arith)
            requires
                300 <= d <= 1000,
                s == 920 || s == 1000,
        ;
        lemma_div_pos_is_pos(d as int * s as int, 1000);
        lemma_div_is_ordered(d as int * s as int, 1000000, 1000);
    }
    d * s / 1000
}

/// The color one wall-strip pixel receives: the texture sampled at the
/// strip's horizontal coordinate and at the vertical fraction of the
/// on-screen strip height — deliberately not of true wall height — shaded
/// by the distance and side attenuation.
pub open spec fn wall_pixel_spec(
    tm: TextureManager,
    intersect: Intersect,
    wall_top: int,
    wall_bottom: int,
    distance: int,
    y: int,
) -> Color {
    let ty = (y - wall_top) * (TEX_ONE as int) / (wall_bottom - wall_top);
    let brightness = distance_attenuation_spec(distance) * side_attenuation_spec(intersect.side)
        / 1000;
    apply_lighting_spec(
        wall_sample_spec(tm, intersect.impact, intersect.texture_x as int, ty),
        brightness,
    )
}

/// Paints one vertical wall strip: rows `wall_top` up to `wall_bottom` of
/// `column`, sampling the wall texture with the vertical coordinate taken
/// as a fraction of the on-screen strip height, shaded by distance and
/// side attenuation. Every pixel of the strip becomes exactly
/// `wall_pixel_spec`, and no pixel outside the strip changes.
pub fn render_wall_column(
    framebuffer: &mut Framebuffer,
    texture_manager: &TextureManager,
    column: usize,
    wall_top: usize,
    wall_bottom: usize,
    intersect: &Intersect,
    distance: i64,
)
    requires
        old(framebuffer).wf(),
        texture_manager.wf(),
        0 <= intersect.texture_x <= TEX_ONE,
        0 <= distance <= MAX_DISTANCE,
        wall_bottom <= old(framebuffer).height,
    ensures
        final(framebuffer).wf(),
        final(framebuffer).width == old(framebuffer).width,
        final(framebuffer).height == old(framebuffer).height,
        forall|px: int, py: int|
            0 <= px < old(framebuffer).width && 0 <= py < old(framebuffer).height && !(px
                == column && wall_top <= py < wall_bottom) ==> #[trigger] final(framebuffer).pixel(
                px,
                py,
            ) == old(framebuffer).pixel(px, py),
        column < old(framebuffer).width ==> forall|y: int|
            wall_top <= y < wall_bottom && y < old(framebuffer).height
                ==> #[trigger] final(framebuffer).pixel(column as int, y) == wall_pixel_spec(
                *texture_manager,
                *intersect,
                wall_top as int,
                wall_bottom as int,
                distance as int,
                y,
            ),
{
    if wall_bottom <= wall_top || wall_top >= framebuffer.height {
        return;
    }
    let column_height = (wall_bottom - wall_top) as i64;
    let brightness = wall_brightness(distance, intersect.side);
    let end = if wall_bottom < framebuffer.height {
        wall_bottom
    } else {
        framebuffer.height
    };
    proof {
        assert(end == if wall_bottom <= framebuffer.height {
            wall_bottom as int
        } else {
            framebuffer.height as int
        });
    }
    let mut y = wall_top;
    while y < end
        invariant
            framebuffer.wf(),
            framebuffer.width == old(framebuffer).width,
            framebuffer.height == old(framebuffer).height,
            texture_manager.wf(),
            0 <= intersect.texture_x <= TEX_ONE,
            0 <= distance <= MAX_DISTANCE,
            brightness == distance_attenuation_spec(distance as int) * side_attenuation_spec(
                intersect.side,
            ) / 1000,
            0 <= brightness <= 1000,
            wall_top <= y,
            wall_top < wall_bottom,
            end <= wall_bottom,
            end <= framebuffer.height,
            wall_bottom <= framebuffer.height ==> end == wall_bottom,
            wall_bottom > framebuffer.height ==> end == framebuffer.height,
            wall_bottom <= 0x8000,
            column_height == wall_bottom - wall_top,
            forall|px: int, py: int|
                0 <= px < old(framebuffer).width && 0 <= py < old(framebuffer).height && !(px
                    == column && wall_top <= py < wall_bottom) ==> #[trigger] framebuffer.pixel(
                    px,
                    py,
                ) == old(framebuffer).pixel(px, py),
            column < old(framebuffer).width ==> forall|py: int|
                wall_top <= py < y ==> #[trigger] framebuffer.pixel(column as int, py)
                    == wall_pixel_spec(
                    *texture_manager,
                    *intersect,
                    wall_top as int,
                    wall_bottom as int,
                    distance as int,
                    py,
                ),
        decreases end - y,
    {
        let texture_y = ((y - wall_top) as i64) * TEX_ONE / column_height;
        proof {
            lemma_div_pos_is_pos((y - wall_top) as int * (TEX_ONE as int), column_height as int);
            lemma_mul_inequality((y - wall_top) as int, column_height as int, TEX_ONE as int);
            lemma_div_is_ordered(
                (y - wall_top) as int * (TEX_ONE as int),
                column_height as int * (TEX_ONE as int),
                column_height as int,
            );
            assert((column_height as int * (TEX_ONE as int)) / (column_height as int)
                == TEX_ONE as int) by (nonlinear_arith)
                requires
                    column_height >= 1,
            ;
        }
        let base_color = texture_manager.get_wall_color_textured(
            intersect.impact,
            intersect.texture_x,
            texture_y,
        );
        let final_color = apply_lighting(base_color, brightness);
        framebuffer.set_current_color(final_color);
        framebuffer.set_pixel(column, y);
        proof {
            if column < old(framebuffer).width {
                assert(framebuffer.pixel(column as int, y as int) == wall_pixel_spec(
                    *texture_manager,
                    *intersect,
                    wall_top as int,
                    wall_bottom as int,
                    distance as int,
                    y as int,
                ));
            }
        }
        y = y + 1;
    }
}

/// Paints the sky (upper half, gradient darkening downward) and the floor
/// (lower half, gradient brightening downward) over the whole frame.
/// The sky color of one upper-half row: a gradient darkening with the
/// row's fraction of the half frame.
pub open spec fn sky_color_spec(half: int, y: int) -> Color {
    let depth = y * 1000 / half;
    Color {
        r: (10 + depth * 15 / 1000) as u8,
        g: (10 + depth * 15 / 1000) as u8,
        b: (20 + depth * 25 / 1000) as u8,
        a: 255,
    }
}

/// The floor color of one lower-half row: a gradient brightening with the
/// row's fraction below the horizon.
pub open spec fn floor_color_spec(half: int, y: int) -> Color {
    let depth = if half > 0 {
        (y - half) * 1000 / half
    } else {
        0
    };
    Color {
        r: (40 + depth * 60 / 1000) as u8,
        g: (30 + depth * 45 / 1000) as u8,
        b: (20 + depth * 30 / 1000) as u8,
        a: 255,
    }
}

/// The background color of one frame row: sky above the horizon, floor at
/// and below it.
pub open spec fn sky_floor_pixel_spec(height: int, y: int) -> Color {
    let half = height / 2;
    if y < half {
        sky_color_spec(half, y)
    } else {
        floor_color_spec(half, y)
    }
}

/// Paints the sky (upper half, gradient darkening downward) and the floor
/// (lower half, gradient brightening downward) over the whole frame:
/// every pixel becomes exactly `sky_floor_pixel_spec` of its row.
pub fn render_sky_and_floor(framebuffer: &mut Framebuffer)
    requires
        old(framebuffer).wf(),
    ensures
        final(framebuffer).wf(),
        final(framebuffer).width == old(framebuffer).width,
        final(framebuffer).height == old(framebuffer).height,
        forall|x: int, y: int|
            0 <= x < old(framebuffer).width && 0 <= y < old(framebuffer).height
                ==> #[trigger] final(framebuffer).pixel(x, y) == sky_floor_pixel_spec(
                old(framebuffer).height as int,
                y,
            ),
{
    let height = framebuffer.height;
    let half_height = framebuffer.height / 2;
    let mut y: usize = 0;
    while y < half_height
        invariant
            framebuffer.wf(),
            framebuffer.width == old(framebuffer).width,
            framebuffer.height == old(framebuffer).height,
            height == framebuffer.height,
            half_height == framebuffer.height / 2,
            0 <= y <= half_height,
            forall|px: int, py: int|
                0 <= px < framebuffer.width && 0 <= py < y ==> #[trigger] framebuffer.pixel(px, py)
                    == sky_floor_pixel_spec(height as int, py),
        decreases half_height - y,
    {
        let depth = (y as i64) * 1000 / (half_height as i64);
        proof {
            lemma_gradient_bound(y as int, half_height as int);
        }
        let sky_color = Color::new(
            (10 + depth * 15 / 1000) as u8,
            (10 + depth * 15 / 1000) as u8,
            (20 + depth * 25 / 1000) as u8,
            255,
        );
        framebuffer.set_current_color(sky_color);
        proof {
            assert(framebuffer.color() == sky_floor_pixel_spec(height as int, y as int));
        }
        let mut x: usize = 0;
        while x < framebuffer.width
            invariant
                framebuffer.wf(),
                framebuffer.width == old(framebuffer).width,
                framebuffer.height == old(framebuffer).height,
                height == framebuffer.height,
                y < framebuffer.height,
                0 <= x <= framebuffer.width,
                framebuffer.color() == sky_floor_pixel_spec(height as int, y as int),
                forall|px: int, py: int|
                    0 <= px < framebuffer.width && 0 <= py < y ==> #[trigger] framebuffer.pixel(
                        px,
                        py,
                    ) == sky_floor_pixel_spec(height as int, py),
                forall|px: int|
                    0 <= px < x ==> #[trigger] framebuffer.pixel(px, y as int)
                        == sky_floor_pixel_spec(height as int, y as int),
            decreases framebuffer.width - x,
        {
            framebuffer.set_pixel(x, y);
            x = x + 1;
        }
        y = y + 1;
    }
    let mut y = half_height;
    while y < height
        invariant
            framebuffer.wf(),
            framebuffer.width == old(framebuffer).width,
            framebuffer.height == old(framebuffer).height,
            height == framebuffer.height,
            half_height == framebuffer.height / 2,
            half_height <= y <= height,
            forall|px: int, py: int|
                0 <= px < framebuffer.width && 0 <= py < y ==> #[trigger] framebuffer.pixel(px, py)
                    == sky_floor_pixel_spec(height as int, py),
        decreases height - y,
    {
        let depth = if half_height > 0 {
            ((y - half_height) as i64) * 1000 / (half_height as i64)
        } else {
            0
        };
        proof {
            if half_height > 0 {
                lemma_gradient_bound((y - half_height) as int, half_height as int);
            }
        }
        let floor_color = Color::new(
            (40 + depth * 60 / 1000) as u8,
            (30 + depth * 45 / 1000) as u8,
            (20 + depth * 30 / 1000) as u8,
            255,
        );
        framebuffer.set_current_color(floor_color);
        proof {
            assert(framebuffer.color() == sky_floor_pixel_spec(height as int, y as int));
        }
        let mut x: usize = 0;
        while x < framebuffer.width
            invariant
                framebuffer.wf(),
                framebuffer.width == old(framebuffer).width,
                framebuffer.height == old(framebuffer).height,
                height == framebuffer.height,
                y < framebuffer.height,
                0 <= x <= framebuffer.width,
                framebuffer.color() == sky_floor_pixel_spec(height as int, y as int),
                forall|px: int, py: int|
                    0 <= px < framebuffer.width && 0 <= py < y ==> #[trigger] framebuffer.pixel(
                        px,
                        py,
                    ) == sky_floor_pixel_spec(height as int, py),
                forall|px: int|
                    0 <= px < x ==> #[trigger] framebuffer.pixel(px, y as int)
                        == sky_floor_pixel_spec(height as int, y as int),
            decreases framebuffer.width - x,
        {
            framebuffer.set_pixel(x, y);
            x = x + 1;
        }
        y = y + 1;
    }
}

/// A gradient fraction `y / half` scaled per-mille stays within one, for
/// `y` up to twice `half`.
proof fn lemma_gradient_bound(y: int, half: int)
    requires
        0 <= y,
        0 < half,
        y <= half + half,
    ensures
        0 <= y * 1000 / half <= 2000,
{
    lemma_div_pos_is_pos(y * 1000, half);
    assert(y * 1000 <= half * 2000) by (nonlinear_arith)
        requires
            y <= half + half,
    ;
    lemma_div_is_ordered(y * 1000, half * 2000, half);
    assert((half * 2000) / half == 2000) by (nonlinear_arith)
        requires
            half > 0,
    ;
}

/// The ray angle of one screen column: a linear interpolation across the
/// player's field of view, reduced into a full turn.
pub open spec fn column_angle_spec(a: int, fov: int, width: int, column: int) -> int {
    angle_mod(a - fov / 2 + column * fov / width)
}

/// Computes the reduced ray angle of one screen column.
pub fn column_angle(player: &Player, width: usize, column: usize) -> (r: i64)
    requires
        player.wf(),
        0 < width <= 0x8000,
        column < width,
    ensures
        r == column_angle_spec(player.a as int, player.fov as int, width as int, column as int),
        0 <= r < ANGLE_TURN,
{
    proof {
        assert(0 <= column as int * player.fov as int <= 0x8000 * 32768) by (nonlinear_arith)
            requires
                0 <= column < width <= 0x8000,
                0 < player.fov <= 32768,
        ;
    }
    let offset = (column as i64) * player.fov / (width as i64);
    proof {
        lemma_div_pos_is_pos(column as int * player.fov as int, width as int);
        lemma_mul_inequality(column as int, width as int, player.fov as int);
        lemma_div_is_ordered(
            column as int * player.fov as int,
            width as int * player.fov as int,
            width as int,
        );
        assert((width as int * player.fov as int) / (width as int) == player.fov as int)
            by (nonlinear_arith)
            requires
                width > 0,
        ;
    }
    wrap_angle(player.a - player.fov / 2 + offset)
}

/// The intersection one screen column's ray reports: the cast at that
/// column's interpolated angle.
pub open spec fn column_intersect_spec(
    g: Seq<Seq<char>>,
    player: Player,
    block_size: int,
    width: int,
    column: int,
) -> Intersect {
    let angle = column_angle_spec(player.a as int, player.fov as int, width, column);
    cast_spec(
        g,
        player.x as int,
        player.y as int,
        cos_spec(angle),
        sin_spec(angle),
        block_size * SUB,
    )
}

/// The per-column wall distance written into the depth buffer: the cast
/// distance floored at one world unit to avoid oversized projections.
pub open spec fn column_depth_spec(
    g: Seq<Seq<char>>,
    player: Player,
    block_size: int,
    width: int,
    column: int,
) -> int {
    let d = column_intersect_spec(g, player, block_size, width, column).distance as int;
    if d < SUB {
        SUB as int
    } else {
        d
    }
}

/// The top row of one column's wall strip: the inverse-distance projection
/// around the horizon, clamped to the frame.
pub open spec fn strip_top_spec(height: int, depth: int) -> int {
    let half = height / 2;
    let wall_height = half * (PROJECTION_PLANE_DISTANCE as int) * (SUB as int) / depth;
    if half - wall_height / 2 < 0 {
        0
    } else {
        half - wall_height / 2
    }
}

/// The row below one column's wall strip, clamped to the frame.
pub open spec fn strip_bottom_spec(height: int, depth: int) -> int {
    let half = height / 2;
    let wall_height = half * (PROJECTION_PLANE_DISTANCE as int) * (SUB as int) / depth;
    if half + wall_height / 2 > height {
        height
    } else if half + wall_height / 2 < 0 {
        0
    } else {
        half + wall_height / 2
    }
}

/// The color one pixel carries after the wall pass of a frame: inside the
/// column's strip the shaded wall sample of that column's intersection,
/// outside it the sky or floor gradient of the row.
pub open spec fn wall_frame_pixel_spec(
    tm: TextureManager,
    g: Seq<Seq<char>>,
    player: Player,
    block_size: int,
    width: int,
    height: int,
    x: int,
    y: int,
) -> Color {
    let its = column_intersect_spec(g, player, block_size, width, x);
    let depth = column_depth_spec(g, player, block_size, width, x);
    let top = strip_top_spec(height, depth);
    let bottom = strip_bottom_spec(height, depth);
    if top <= y < bottom {
        wall_pixel_spec(tm, its, top, bottom, depth, y)
    } else {
        sky_floor_pixel_spec(height, y)
    }
}

/// Renders every wall column of one frame: sky and floor first, then for
/// each screen column a cast ray and its shaded strip. Returns the depth
/// buffer — one floored wall distance per column, exactly
/// `column_depth_spec` — and leaves every pixel exactly
/// `wall_frame_pixel_spec`: the shaded wall strip over the gradient
/// background.
pub fn render_world_textured(
    framebuffer: &mut Framebuffer,
    maze: &MazeData,
    texture_manager: &TextureManager,
    block_size: usize,
    player: &Player,
) -> (depths: Vec<i64>)
    requires
        old(framebuffer).wf(),
        maze.wf(),
        texture_manager.wf(),
        player.wf(),
        0 < block_size <= 0x10000,
    ensures
        final(framebuffer).wf(),
        final(framebuffer).width == old(framebuffer).width,
        final(framebuffer).height == old(framebuffer).height,
        maze.view_grid().len() > 0 ==> {
            &&& depths@.len() == old(framebuffer).width
            &&& forall|c: int|
                0 <= c < depths@.len() ==> #[trigger] depths@[c] == column_depth_spec(
                    maze.view_grid(),
                    *player,
                    block_size as int,
                    old(framebuffer).width as int,
                    c,
                )
            &&& forall|x: int, y: int|
                0 <= x < old(framebuffer).width && 0 <= y < old(framebuffer).height
                    ==> #[trigger] final(framebuffer).pixel(x, y) == wall_frame_pixel_spec(
                    *texture_manager,
                    maze.view_grid(),
                    *player,
                    block_size as int,
                    old(framebuffer).width as int,
                    old(framebuffer).height as int,
                    x,
                    y,
                )
        },
{
    let mut depths: Vec<i64> = Vec::new();
    if maze.is_empty() {
        return depths;
    }
    let screen_width = framebuffer.width;
    let screen_height = framebuffer.height;
    render_sky_and_floor(framebuffer);
    let half_height = (screen_height / 2) as i64;
    let mut column: usize = 0;
    while column < screen_width
        invariant
            framebuffer.wf(),
            framebuffer.width == old(framebuffer).width,
            framebuffer.height == old(framebuffer).height,
            maze.wf(),
            maze.view_grid().len() > 0,
            texture_manager.wf(),
            player.wf(),
            0 < block_size <= 0x10000,
            screen_width == old(framebuffer).width,
            screen_height == old(framebuffer).height,
            half_height == screen_height as int / 2,
            0 <= column <= screen_width,
            depths@.len() == column,
            forall|c: int|
                0 <= c < column ==> #[trigger] depths@[c] == column_depth_spec(
                    maze.view_grid(),
                    *player,
                    block_size as int,
                    screen_width as int,
                    c,
                ),
            forall|x: int, y: int|
                0 <= x < column && 0 <= y < screen_height ==> #[trigger] framebuffer.pixel(x, y)
                    == wall_frame_pixel_spec(
                    *texture_manager,
                    maze.view_grid(),
                    *player,
                    block_size as int,
                    screen_width as int,
                    screen_height as int,
                    x,
                    y,
                ),
            forall|x: int, y: int|
                column <= x < screen_width && 0 <= y < screen_height
                    ==> #[trigger] framebuffer.pixel(x, y) == sky_floor_pixel_spec(
                    screen_height as int,
                    y,
                ),
        decreases screen_width - column,
    {
        let ray_angle = column_angle(player, screen_width, column);
        let intersect = cast_ray_textured(maze, player, ray_angle, block_size);
        let distance = if intersect.distance < SUB {
            SUB
        } else {
            intersect.distance
        };
        depths.push(distance);
        let wall_height = half_height * PROJECTION_PLANE_DISTANCE * SUB / distance;
        proof {
            lemma_div_pos_is_pos(
                half_height as int * (PROJECTION_PLANE_DISTANCE as int) * (SUB as int),
                distance as int,
            );
            lemma_div_is_ordered(
                half_height as int * (PROJECTION_PLANE_DISTANCE as int) * (SUB as int),
                half_height as int * (PROJECTION_PLANE_DISTANCE as int) * (SUB as int),
                distance as int,
            );
            assert(half_height * (PROJECTION_PLANE_DISTANCE as int) * (SUB as int) / (
            distance as int) <= half_height * 100) by (nonlinear_arith)
                requires
                    half_height >= 0,
                    distance >= SUB,
                    SUB == 2,
                    PROJECTION_PLANE_DISTANCE == 100,
            ;
        }
        let wall_top_i = half_height - wall_height / 2;
        let wall_bottom_i = half_height + wall_height / 2;
        let wall_top: usize = if wall_top_i < 0 {
            0
        } else {
            wall_top_i as usize
        };
        let wall_bottom: usize = if wall_bottom_i > screen_height as i64 {
            screen_height
        } else if wall_bottom_i < 0 {
            0
        } else {
            wall_bottom_i as usize
        };
        proof {
            let g = maze.view_grid();
            let w = screen_width as int;
            let h = screen_height as int;
            let b = block_size as int;
            assert(intersect == column_intersect_spec(g, *player, b, w, column as int));
            assert(distance == column_depth_spec(g, *player, b, w, column as int));
            assert(wall_top as int == strip_top_spec(h, distance as int));
            assert(wall_bottom as int == strip_bottom_spec(h, distance as int));
        }
        render_wall_column(
            framebuffer,
            texture_manager,
            column,
            wall_top,
            wall_bottom,
            &intersect,
            distance,
        );
        proof {
            let g = maze.view_grid();
            let w = screen_width as int;
            let h = screen_height as int;
            let b = block_size as int;
            assert forall|y: int| 0 <= y < screen_height implies #[trigger] framebuffer.pixel(
                column as int,
                y,
            ) == wall_frame_pixel_spec(*texture_manager, g, *player, b, w, h, column as int, y) by {
                if wall_top <= y < wall_bottom {
                } else {
                }
            }
        }
        column = column + 1;
    }
    depths
}

/// Renders one full frame: sky and floor, every wall column with its
/// depth, and then the sprites through the completed depth buffer — in
/// that order, so the compositor observes the final depth of every
/// column. On an empty maze nothing is painted. Otherwise every pixel in
/// a column whose wall — at depth exactly `column_depth_spec` — is at
/// least as near as every active sprite still shows the finished wall
/// pass, `wall_frame_pixel_spec`: walls occlude sprites.
pub fn render_world_with_sprites(
    framebuffer: &mut Framebuffer,
    maze: &MazeData,
    texture_manager: &TextureManager,
    sprite_manager: &SpriteManager,
    block_size: usize,
    player: &Player,
)
    requires
        old(framebuffer).wf(),
        maze.wf(),
        texture_manager.wf(),
        sprite_manager.wf(),
        player.wf(),
        0 < block_size <= 0x10000,
    ensures
        final(framebuffer).wf(),
        final(framebuffer).width == old(framebuffer).width,
        final(framebuffer).height == old(framebuffer).height,
        maze.view_grid().len() == 0 ==> forall|x: int, y: int|
            0 <= x < old(framebuffer).width && 0 <= y < old(framebuffer).height
                ==> #[trigger] final(framebuffer).pixel(x, y) == old(framebuffer).pixel(x, y),
        maze.view_grid().len() > 0 ==> forall|x: int, y: int|
            0 <= x < old(framebuffer).width && 0 <= y < old(framebuffer).height && (forall|i: int|
                0 <= i < sprite_manager.sprites@.len() && (#[trigger] sprite_manager.sprites@[i]).active
                    ==> crate::sprite_manager::sprite_dist_sq(sprite_manager.sprites@[i], *player)
                    >= column_depth_spec(
                    maze.view_grid(),
                    *player,
                    block_size as int,
                    old(framebuffer).width as int,
                    x,
                ) * column_depth_spec(
                    maze.view_grid(),
                    *player,
                    block_size as int,
                    old(framebuffer).width as int,
                    x,
                )) ==> #[trigger] final(framebuffer).pixel(x, y) == wall_frame_pixel_spec(
                *texture_manager,
                maze.view_grid(),
                *player,
                block_size as int,
                old(framebuffer).width as int,
                old(framebuffer).height as int,
                x,
                y,
            ),
{
    if maze.is_empty() {
        return;
    }
    let depths = render_world_textured(framebuffer, maze, texture_manager, block_size, player);
    sprite_manager.render_sprites(framebuffer, player, &depths);
}

/// Renders the wall frame; alias of `render_world_textured` with the same
/// contract, kept for callers of the plain interface.
pub fn render_world_safe(
    framebuffer: &mut Framebuffer,
    maze: &MazeData,
    texture_manager: &TextureManager,
    block_size: usize,
    player: &Player,
) -> (depths: Vec<i64>)
    requires
        old(framebuffer).wf(),
        maze.wf(),
        texture_manager.wf(),
        player.wf(),
        0 < block_size <= 0x10000,
    ensures
        final(framebuffer).wf(),
        final(framebuffer).width == old(framebuffer).width,
        final(framebuffer).height == old(framebuffer).height,
        maze.view_grid().len() > 0 ==> {
            &&& depths@.len() == old(framebuffer).width
            &&& forall|c: int|
                0 <= c < depths@.len() ==> #[trigger] depths@[c] == column_depth_spec(
                    maze.view_grid(),
                    *player,
                    block_size as int,
                    old(framebuffer).width as int,
                    c,
                )
            &&& forall|x: int, y: int|
                0 <= x < old(framebuffer).width && 0 <= y < old(framebuffer).height
                    ==> #[trigger] final(framebuffer).pixel(x, y) == wall_frame_pixel_spec(
                    *texture_manager,
                    maze.view_grid(),
                    *player,
                    block_size as int,
                    old(framebuffer).width as int,
                    old(framebuffer).height as int,
                    x,
                    y,
                )
        },
{
    render_world_textured(framebuffer, maze, texture_manager, block_size, player)
}

} // verus!
