//! The software framebuffer: an RGBA pixel grid in memory with a current
//! drawing color. Writes are bounds-checked — a pixel outside the frame is
//! silently dropped — so every painter is total and the pixel model says
//! exactly which cells a write can touch.

use vstd::prelude::*;

verus! {

/// One RGBA color, one byte per channel.
#[derive(Debug, Clone, Copy, PartialEq, Eq, Structural)]
pub struct Color {
    pub r: u8,
    pub g: u8,
    pub b: u8,
    pub a: u8,
}

impl Color {
    /// Builds a color from its four channels.
    pub fn new(r: u8, g: u8, b: u8, a: u8) -> (c: Color)
        ensures
            c == (Color { r, g, b, a }),
    {
        Color { r, g, b, a }
    }

    /// The neutral gray used where no symbol-specific color exists.
    pub fn gray() -> (c: Color)
        ensures
            c == (Color { r: 130, g: 130, b: 130, a: 255 }),
    {
        Color { r: 130, g: 130, b: 130, a: 255 }
    }
}

/// The pixel grid: row-major, `width * height` cells.
pub struct Framebuffer {
    pub width: usize,
    pub height: usize,
    pub pixels: Vec<Color>,
    pub current_color: Color,
    pub background_color: Color,
}

/// The flat pixel index of column `x`, row `y` in a frame `w` wide.
pub open spec fn pix_index(w: int, x: int, y: int) -> int {
    y * w + x
}

/// Distinct in-bounds positions have distinct flat indices.
pub proof fn lemma_pix_index_injective(w: int, x1: int, y1: int, x2: int, y2: int)
    requires
        0 <= x1 < w,
        0 <= x2 < w,
        0 <= y1,
        0 <= y2,
        pix_index(w, x1, y1) == pix_index(w, x2, y2),
    ensures
        x1 == x2 && y1 == y2,
{
    assert(y1 == y2 && x1 == x2) by (nonlinear_arith)
        requires
            0 <= x1 < w,
            0 <= x2 < w,
            0 <= y1,
            0 <= y2,
            y1 * w + x1 == y2 * w + x2,
    ;
}

/// In-bounds positions index inside the pixel vector.
pub proof fn lemma_pix_index_bound(w: int, h: int, x: int, y: int)
    requires
        0 <= x < w,
        0 <= y < h,
    ensures
        0 <= pix_index(w, x, y) < w * h,
{
    assert(0 <= y * w + x < w * h) by (nonlinear_arith)
        requires
            0 <= x < w,
            0 <= y < h,
    ;
}

impl Framebuffer {
    /// Well-formedness: the pixel vector covers the whole frame.
    pub open spec fn wf(self) -> bool {
        &&& self.pixels@.len() == self.width * self.height
        &&& self.width <= 0x8000
        &&& self.height <= 0x8000
    }

    /// The color of the pixel at column `x`, row `y`.
    pub open spec fn pixel(self, x: int, y: int) -> Color {
        self.pixels@[pix_index(self.width as int, x, y)]
    }

    /// The color that `set_pixel` writes.
    pub open spec fn color(self) -> Color {
        self.current_color
    }

    /// The color that `clear` fills with.
    pub open spec fn background(self) -> Color {
        self.background_color
    }

    /// The frame shape and palette state that painters preserve.
    pub open spec fn same_frame(self, other: Framebuffer) -> bool {
        &&& self.width == other.width
        &&& self.height == other.height
        &&& self.current_color == other.current_color
        &&& self.background_color == other.background_color
    }

    /// Allocates an all-black frame of the given dimensions.
    pub fn new(width: usize, height: usize) -> (r: Framebuffer)
        requires
            width <= 0x8000,
            height <= 0x8000,
        ensures
            r.wf(),
            r.width == width,
            r.height == height,
            forall|x: int, y: int|
                0 <= x < width && 0 <= y < height ==> #[trigger] r.pixel(x, y) == (Color {
                    r: 0,
                    g: 0,
                    b: 0,
                    a: 255,
                }),
    {
        let black = Color { r: 0, g: 0, b: 0, a: 255 };
        proof {
            assert(width * height <= 0x8000 * 0x8000) by (nonlinear_arith)
                requires
                    width <= 0x8000,
                    height <= 0x8000,
            ;
        }
        let n = width * height;
        let mut pixels: Vec<Color> = Vec::new();
        let mut i: usize = 0;
        while i < n
            invariant
                0 <= i <= n,
                pixels@.len() == i,
                black == (Color { r: 0, g: 0, b: 0, a: 255 }),
                forall|j: int| 0 <= j < i ==> pixels@[j] == (Color { r: 0, g: 0, b: 0, a: 255 }),
            decreases n - i,
        {
            pixels.push(black);
            proof {
                assert(pixels@[i as int] == black);
            }
            i = i + 1;
        }
        let fb = Framebuffer {
            width,
            height,
            pixels,
            current_color: black,
            background_color: black,
        };
        proof {
            assert forall|x: int, y: int| 0 <= x < width && 0 <= y < height implies #[trigger] fb
                .pixel(x, y) == black by {
                lemma_pix_index_bound(width as int, height as int, x, y);
            }
        }
        fb
    }

    /// Selects the color that subsequent pixel writes use.
    pub fn set_current_color(&mut self, color: Color)
        ensures
            final(self).wf() == old(self).wf(),
            final(self).width == old(self).width,
            final(self).height == old(self).height,
            final(self).color() == color,
            final(self).background() == old(self).background(),
            forall|x: int, y: int| #[trigger]
                final(self).pixel(x, y) == old(self).pixel(x, y),
    {
        self.current_color = color;
    }

    /// Selects the color that `clear` fills with.
    pub fn set_background_color(&mut self, color: Color)
        ensures
            final(self).wf() == old(self).wf(),
            final(self).width == old(self).width,
            final(self).height == old(self).height,
            final(self).color() == old(self).color(),
            final(self).background() == color,
            forall|x: int, y: int| #[trigger]
                final(self).pixel(x, y) == old(self).pixel(x, y),
    {
        self.background_color = color;
    }

    /// Paints the pixel at (`x`, `y`) with the current color; a position
    /// outside the frame changes nothing.
    pub fn set_pixel(&mut self, x: usize, y: usize)
        requires
            old(self).wf(),
        ensures
            final(self).wf(),
            final(self).same_frame(*old(self)),
            x < old(self).width && y < old(self).height ==> final(self).pixel(x as int, y as int)
                == old(self).color(),
            forall|px: int, py: int|
                0 <= px < old(self).width && 0 <= py < old(self).height && !(px == x && py == y)
                    ==> #[trigger] final(self).pixel(px, py) == old(self).pixel(px, py),
            !(x < old(self).width && y < old(self).height) ==> forall|px: int, py: int| #[trigger]
                final(self).pixel(px, py) == old(self).pixel(px, py),
    {
        if x < self.width && y < self.height {
            proof {
                lemma_pix_index_bound(self.width as int, self.height as int, x as int, y as int);
                assert(y * self.width + x < 0x8000 * 0x8000) by (nonlinear_arith)
                    requires
                        y < self.height,
                        x < self.width,
                        self.width <= 0x8000,
                        self.height <= 0x8000,
                ;
            }
            let idx = y * self.width + x;
            let c = self.current_color;
            self.pixels.set(idx, c);
            proof {
                assert forall|px: int, py: int|
                    0 <= px < self.width && 0 <= py < self.height && !(px == x && py == y) implies
                    #[trigger] self.pixel(px, py) == old(self).pixel(px, py) by {
                    lemma_pix_index_bound(self.width as int, self.height as int, px, py);
                    if pix_index(self.width as int, px, py) == pix_index(
                        self.width as int, x as int, y as int,
                    ) {
                        lemma_pix_index_injective(self.width as int, px, py, x as int, y as int);
                    }
                }
            }
        }
    }

    /// The color of the pixel at (`x`, `y`); black outside the frame.
    pub fn get_pixel(&self, x: usize, y: usize) -> (c: Color)
        requires
            self.wf(),
        ensures
            x < self.width && y < self.height ==> c == self.pixel(x as int, y as int),
    {
        if x < self.width && y < self.height {
            proof {
                lemma_pix_index_bound(self.width as int, self.height as int, x as int, y as int);
                assert(y * self.width + x < 0x8000 * 0x8000) by (nonlinear_arith)
                    requires
                        y < self.height,
                        x < self.width,
                        self.width <= 0x8000,
                        self.height <= 0x8000,
                ;
            }
            self.pixels[y * self.width + x]
        } else {
            Color { r: 0, g: 0, b: 0, a: 255 }
        }
    }

    /// Fills the whole frame with the background color.
    pub fn clear(&mut self)
        requires
            old(self).wf(),
        ensures
            final(self).wf(),
            final(self).same_frame(*old(self)),
            forall|x: int, y: int|
                0 <= x < old(self).width && 0 <= y < old(self).height
                    ==> #[trigger] final(self).pixel(x, y) == old(self).background(),
    {
        let n = self.pixels.len();
        let bg = self.background_color;
        let mut i: usize = 0;
        while i < n
            invariant
                self.wf(),
                self.same_frame(*old(self)),
                n == self.pixels@.len(),
                bg == old(self).background(),
                0 <= i <= n,
                forall|j: int| 0 <= j < i ==> self.pixels@[j] == bg,
            decreases n - i,
        {
            self.pixels.set(i, bg);
            i = i + 1;
        }
        proof {
            assert forall|x: int, y: int|
                0 <= x < old(self).width && 0 <= y < old(self).height implies #[trigger] self
                .pixel(x, y) == bg by {
                lemma_pix_index_bound(self.width as int, self.height as int, x, y);
            }
        }
    }
}

} // verus!
