use vstd::prelude::*;
use vstd::arithmetic::div_mod::{lemma_fundamental_div_mod, lemma_mod_division_less_than_divisor};
use crate::config::{GPUConfig, RenderOccasion};

verus! {

/// The monochrome framebuffer: a row-major `width * height` grid of pixels,
/// drawn into by XOR sprites, plus the flag that asks the presenter for a
/// redraw.
pub struct GPU {
    pub config: GPUConfig,
    pub framebuffer: Vec<bool>,
    pub render_queued: bool,
}

/// The mathematical model of the display.
pub struct GpuView {
    pub config: GPUConfig,
    pub framebuffer: Seq<bool>,
    pub render_queued: bool,
}

impl View for GPU {
    type V = GpuView;

    open spec fn view(&self) -> GpuView {
        GpuView {
            config: self.config,
            framebuffer: self.framebuffer@,
            render_queued: self.render_queued,
        }
    }
}

/// Whether one sprite draw or clear leaves a redraw request behind.
pub open spec fn queued_after_change(g: GpuView) -> bool {
    if g.config.render_occasion == RenderOccasion::Changes {
        true
    } else {
        g.render_queued
    }
}

/// Whether the sprite bit for column `b` (0 is leftmost) of a row byte is
/// set.
pub open spec fn sprite_row_bit(byte: u8, b: int) -> bool
    recommends
        0 <= b < 8,
{
    (byte >> ((7 - b) as u8)) & 1 == 1
}

/// The framebuffer cell a sprite bit lands on: wrapped modulo the screen, or
/// discarded when it falls off and pixel wrapping is off.
pub open spec fn resolve_pixel(w: int, h: int, wrap: bool, x: int, y: int) -> Option<int>
    recommends
        w >= 1,
        h >= 1,
        x >= 0,
        y >= 0,
{
    if wrap {
        Some((y % h) * w + (x % w))
    } else if x < w && y < h {
        Some(y * w + x)
    } else {
        None
    }
}

/// XOR one sprite bit into the framebuffer; the second component reports a
/// collision: the bit was set and the cell it landed on was already lit.
pub open spec fn draw_bit(fb: Seq<bool>, w: int, h: int, wrap: bool, x: int, y: int, on: bool) -> (
    Seq<bool>,
    bool,
) {
    if !on {
        (fb, false)
    } else {
        match resolve_pixel(w, h, wrap, x, y) {
            Some(idx) => (fb.update(idx, !fb[idx]), fb[idx]),
            None => (fb, false),
        }
    }
}

/// The framebuffer and collision flag after the first `k` bits of one sprite
/// row byte at `(x, y)`; bits are drawn from column 7 down to column `8 - k`.
pub open spec fn draw_byte_partial(
    fb: Seq<bool>,
    byte: u8,
    x: int,
    y: int,
    w: int,
    h: int,
    wrap: bool,
    k: int,
) -> (Seq<bool>, bool)
    decreases k,
{
    if k <= 0 {
        (fb, false)
    } else {
        let prev = draw_byte_partial(fb, byte, x, y, w, h, wrap, k - 1);
        let b = 8 - k;
        let step = draw_bit(prev.0, w, h, wrap, x + b, y, sprite_row_bit(byte, b));
        (step.0, prev.1 || step.1)
    }
}

/// The framebuffer and collision flag after the first `rows` rows of a
/// sprite whose top-left bit targets `(x, y)`.
pub open spec fn draw_sprite_rows(
    fb: Seq<bool>,
    sprite: Seq<u8>,
    x: int,
    y: int,
    w: int,
    h: int,
    wrap: bool,
    rows: int,
) -> (Seq<bool>, bool)
    decreases rows,
{
    if rows <= 0 {
        (fb, false)
    } else {
        let prev = draw_sprite_rows(fb, sprite, x, y, w, h, wrap, rows - 1);
        let step = draw_byte_partial(prev.0, sprite[rows - 1], x, y + rows - 1, w, h, wrap, 8);
        (step.0, prev.1 || step.1)
    }
}

/// What one whole sprite draw does: the starting position wraps (or, with
/// position wrapping off, an off-screen start draws nothing), and each set
/// bit XORs its resolved cell, colliding where the cell was already lit.
pub open spec fn draw_sprite_spec(
    fb: Seq<bool>,
    sprite: Seq<u8>,
    x_pos: u8,
    y_pos: u8,
    w: int,
    h: int,
    wrap_positions: bool,
    wrap_pixels: bool,
) -> (Seq<bool>, bool) {
    if wrap_positions {
        draw_sprite_rows(
            fb,
            sprite,
            (x_pos as int) % w,
            (y_pos as int) % h,
            w,
            h,
            wrap_pixels,
            sprite.len() as int,
        )
    } else if x_pos >= w || y_pos >= h {
        (fb, false)
    } else {
        draw_sprite_rows(fb, sprite, x_pos as int, y_pos as int, w, h, wrap_pixels, sprite.len() as int)
    }
}

impl GPU {
    /// Well-formedness: a positive resolution and a framebuffer of exactly
    /// `width * height` cells.
    pub open spec fn wf(self) -> bool {
        &&& self.config.horizontal_resolution >= 1
        &&& self.config.vertical_resolution >= 1
        &&& self.framebuffer@.len() == self.config.horizontal_resolution
            * self.config.vertical_resolution
    }

    pub open spec fn width(self) -> int {
        self.config.horizontal_resolution as int
    }

    pub open spec fn height(self) -> int {
        self.config.vertical_resolution as int
    }

    /// Build the display: a dark framebuffer of the configured resolution.
    /// A zero-sized resolution, or one whose cell count overflows the host's
    /// address range, is rejected.
    pub fn try_new(config: GPUConfig) -> (r: Option<GPU>)
        ensures
            r is Some <==> (config.horizontal_resolution >= 1 && config.vertical_resolution >= 1
                && config.horizontal_resolution * config.vertical_resolution <= usize::MAX),
            r is Some ==> {
                let gpu = r.unwrap();
                &&& gpu.wf()
                &&& gpu.config == config
                &&& !gpu.render_queued
                &&& forall|i: int| 0 <= i < gpu.framebuffer@.len() ==> !gpu.framebuffer@[i]
            },
    {
        if config.horizontal_resolution == 0 || config.vertical_resolution == 0 {
            return None;
        }
        let size: usize = match config.horizontal_resolution.checked_mul(
            config.vertical_resolution,
        ) {
            Some(s) => s,
            None => {
                return None;
            },
        };

        let mut framebuffer: Vec<bool> = Vec::new();
        let mut i: usize = 0;
        while i < size
            invariant
                framebuffer@.len() == i,
                i <= size,
                forall|j: int| 0 <= j < i ==> !framebuffer@[j],
            decreases size - i,
        {
            framebuffer.push(false);
            i += 1;
        }

        Some(GPU { config, framebuffer, render_queued: false })
    }

    /// A 64 by 32 display that wraps sprite positions and pixels and redraws
    /// on changes.
    pub fn new_default_wrapping() -> (r: GPU)
        ensures
            r.wf(),
            r.config.horizontal_resolution == 64,
            r.config.vertical_resolution == 32,
            r.config.wrap_sprite_positions,
            r.config.wrap_sprite_pixels,
            r.config.render_occasion == RenderOccasion::Changes,
            !r.render_queued,
            forall|i: int| 0 <= i < r.framebuffer@.len() ==> !r.framebuffer@[i],
    {
        GPU::try_new(
            GPUConfig {
                pixel_color_when_active: 0xFFFFFF,
                pixel_color_when_inactive: 0x000000,
                screen_border_color: 0x777777,
                horizontal_resolution: 64,
                vertical_resolution: 32,
                wrap_sprite_positions: true,
                wrap_sprite_pixels: true,
                render_occasion: RenderOccasion::Changes,
            },
        ).unwrap()
    }

    /// A 64 by 32 display that clips: off-screen starts draw nothing and
    /// off-screen pixels are discarded.
    pub fn new_default_no_wrapping() -> (r: GPU)
        ensures
            r.wf(),
            r.config.horizontal_resolution == 64,
            r.config.vertical_resolution == 32,
            !r.config.wrap_sprite_positions,
            !r.config.wrap_sprite_pixels,
            r.config.render_occasion == RenderOccasion::Changes,
            !r.render_queued,
            forall|i: int| 0 <= i < r.framebuffer@.len() ==> !r.framebuffer@[i],
    {
        GPU::try_new(
            GPUConfig {
                pixel_color_when_active: 0xFFFFFF,
                pixel_color_when_inactive: 0x000000,
                screen_border_color: 0x777777,
                horizontal_resolution: 64,
                vertical_resolution: 32,
                wrap_sprite_positions: false,
                wrap_sprite_pixels: false,
                render_occasion: RenderOccasion::Changes,
            },
        ).unwrap()
    }

    /// Whether a separate paced agent drives redraws, instead of redraws
    /// following changes.
    pub fn should_render_separately(&self) -> (r: bool)
        ensures
            r == (self.config.render_occasion == RenderOccasion::Frequency),
    {
        self.config.render_occasion == RenderOccasion::Frequency
    }

    /// One tick of the paced render agent: ask the presenter for a redraw.
    pub fn queue_render(&mut self)
        ensures
            *final(self) == (GPU { render_queued: true, ..*old(self) }),
    {
        self.render_queued = true;
    }

    pub fn get_screen_resolution(&self) -> (r: (usize, usize))
        ensures
            r.0 == self.config.horizontal_resolution,
            r.1 == self.config.vertical_resolution,
    {
        (self.config.horizontal_resolution, self.config.vertical_resolution)
    }

    pub fn get_active_color(&self) -> (r: u32)
        ensures
            r == self.config.pixel_color_when_active,
    {
        self.config.pixel_color_when_active
    }

    pub fn get_inactive_color(&self) -> (r: u32)
        ensures
            r == self.config.pixel_color_when_inactive,
    {
        self.config.pixel_color_when_inactive
    }

    pub fn get_border_color(&self) -> (r: u32)
        ensures
            r == self.config.screen_border_color,
    {
        self.config.screen_border_color
    }

    pub fn get_framebuffer(&self) -> (r: &Vec<bool>)
        ensures
            r@ == self.framebuffer@,
    {
        &self.framebuffer
    }

    pub fn is_render_queued(&self) -> (r: bool)
        ensures
            r == self.render_queued,
    {
        self.render_queued
    }

    /// The presenter took the frame; clear the redraw request.
    pub fn dequeue_render(&mut self)
        ensures
            *final(self) == (GPU { render_queued: false, ..*old(self) }),
    {
        self.render_queued = false;
    }

    /// Darken every pixel, and ask for a redraw when redraws follow changes.
    pub fn clear_framebuffer(&mut self)
        requires
            old(self).wf(),
        ensures
            final(self).wf(),
            final(self).config == old(self).config,
            final(self).framebuffer@.len() == old(self).framebuffer@.len(),
            forall|i: int| 0 <= i < final(self).framebuffer@.len() ==> !final(self).framebuffer@[i],
            final(self).render_queued == if old(self).config.render_occasion
                == RenderOccasion::Changes {
                true
            } else {
                old(self).render_queued
            },
    {
        let len: usize = self.framebuffer.len();
        let mut i: usize = 0;
        while i < len
            invariant
                self.framebuffer@.len() == len,
                self.config == old(self).config,
                self.render_queued == old(self).render_queued,
                i <= len,
                forall|j: int| 0 <= j < i ==> !self.framebuffer@[j],
                forall|j: int| i <= j < len ==> self.framebuffer@[j] == old(self).framebuffer@[j],
            decreases len - i,
        {
            self.framebuffer[i] = false;
            i += 1;
        }

        if matches!(self.config.render_occasion, RenderOccasion::Changes) {
            self.render_queued = true;
        }
    }

    /// XOR one sprite bit's target cell, reporting whether it was lit;
    /// off-screen targets are wrapped or, with pixel wrapping off, discarded.
    pub fn draw_pixel(&mut self, x_pos: usize, y_pos: usize) -> (r: Option<bool>)
        requires
            old(self).wf(),
        ensures
            final(self).wf(),
            final(self).config == old(self).config,
            final(self).render_queued == old(self).render_queued,
            ({
                let res = resolve_pixel(
                    old(self).width(),
                    old(self).height(),
                    old(self).config.wrap_sprite_pixels,
                    x_pos as int,
                    y_pos as int,
                );
                if res is Some {
                    let idx = res.unwrap();
                    &&& final(self).framebuffer@ == old(self).framebuffer@.update(
                        idx,
                        !old(self).framebuffer@[idx],
                    )
                    &&& r == Some(old(self).framebuffer@[idx])
                } else {
                    &&& final(self).framebuffer@ == old(self).framebuffer@
                    &&& r is None
                }
            }),
    {
        let width: usize = self.config.horizontal_resolution;
        let height: usize = self.config.vertical_resolution;
        let mut x_pos = x_pos;
        let mut y_pos = y_pos;

        if self.config.wrap_sprite_pixels {
            x_pos = x_pos % width;
            y_pos = y_pos % height;
        } else if x_pos >= width || y_pos >= height {
            return None;
        }

        let fb_len: usize = self.framebuffer.len();
        proof {
            assert(y_pos * width + x_pos < height * width) by (nonlinear_arith)
                requires
                    y_pos < height,
                    x_pos < width,
                    width >= 1,
                    height >= 1,
            ;
            assert(height * width == width * height) by (nonlinear_arith);
            assert(y_pos * width + x_pos < fb_len);
        }
        let index: usize = y_pos * width + x_pos;

        let collision: bool = self.framebuffer[index];
        self.framebuffer[index] = !collision;
        Some(collision)
    }

    /// Draw the first eight bits of one sprite row byte, from column 7 down
    /// to column 0, and report whether any bit collided.
    pub fn draw_byte(&mut self, byte: u8, x_pos: usize, y_pos: usize) -> (collided: bool)
        requires
            old(self).wf(),
            x_pos <= 0xFFFF,
            y_pos <= 0xFFFF,
        ensures
            final(self).wf(),
            final(self).config == old(self).config,
            final(self).render_queued == old(self).render_queued,
            (final(self).framebuffer@, collided) == draw_byte_partial(
                old(self).framebuffer@,
                byte,
                x_pos as int,
                y_pos as int,
                old(self).width(),
                old(self).height(),
                old(self).config.wrap_sprite_pixels,
                8,
            ),
    {
        let mut collided: bool = false;
        let mut k: usize = 0;
        while k < 8
            invariant
                self.wf(),
                x_pos <= 0xFFFF,
                y_pos <= 0xFFFF,
                k <= 8,
                self.config == old(self).config,
                self.render_queued == old(self).render_queued,
                (self.framebuffer@, collided) == draw_byte_partial(
                    old(self).framebuffer@,
                    byte,
                    x_pos as int,
                    y_pos as int,
                    old(self).width(),
                    old(self).height(),
                    old(self).config.wrap_sprite_pixels,
                    k as int,
                ),
            decreases 8 - k,
        {
            let i: usize = 7 - k;
            let on: bool = (byte >> (k as u8)) & 1 == 1;
            proof {
                assert(7 - (8 - (k + 1)) == k as int);
                assert(on == sprite_row_bit(byte, 8 - (k + 1)));
            }
            if on {
                let r = self.draw_pixel(x_pos + i, y_pos);
                match r {
                    Some(c) => {
                        if c {
                            collided = true;
                        }
                    },
                    None => {},
                }
            }
            k += 1;
        }
        collided
    }

    /// Draw a whole sprite at `(x_pos, y_pos)`, row by row, and report
    /// whether any set bit landed on a lit cell. The starting position
    /// wraps, or with position wrapping off an off-screen start draws
    /// nothing; redraw-on-changes queues a redraw.
    pub fn draw_sprite(&mut self, sprite: Vec<u8>, x_pos: u8, y_pos: u8) -> (collided: bool)
        requires
            old(self).wf(),
            sprite@.len() <= 15,
        ensures
            final(self).wf(),
            final(self).config == old(self).config,
            (final(self).framebuffer@, collided) == draw_sprite_spec(
                old(self).framebuffer@,
                sprite@,
                x_pos,
                y_pos,
                old(self).width(),
                old(self).height(),
                old(self).config.wrap_sprite_positions,
                old(self).config.wrap_sprite_pixels,
            ),
            final(self).render_queued == if (old(self).config.wrap_sprite_positions || (x_pos
                < old(self).width() && y_pos < old(self).height())) && old(
                self,
            ).config.render_occasion == RenderOccasion::Changes {
                true
            } else {
                old(self).render_queued
            },
    {
        let width: usize = self.config.horizontal_resolution;
        let height: usize = self.config.vertical_resolution;
        let mut x: usize = x_pos as usize;
        let mut y: usize = y_pos as usize;

        if self.config.wrap_sprite_positions {
            x = x % width;
            y = y % height;
            proof {
                vstd::arithmetic::div_mod::lemma_mod_decreases(x_pos as nat, width as nat);
                vstd::arithmetic::div_mod::lemma_mod_decreases(y_pos as nat, height as nat);
            }
        } else if x >= width || y >= height {
            return false;
        }

        let mut collided: bool = false;
        let mut i: usize = 0;
        while i < sprite.len()
            invariant
                self.wf(),
                x <= 0xFF,
                y <= 0xFF,
                sprite@.len() <= 15,
                i <= sprite@.len(),
                self.config == old(self).config,
                self.render_queued == old(self).render_queued,
                (self.framebuffer@, collided) == draw_sprite_rows(
                    old(self).framebuffer@,
                    sprite@,
                    x as int,
                    y as int,
                    old(self).width(),
                    old(self).height(),
                    old(self).config.wrap_sprite_pixels,
                    i as int,
                ),
            decreases sprite@.len() - i,
        {
            let row_collided = self.draw_byte(sprite[i], x, y + i);
            if row_collided {
                collided = true;
            }
            i += 1;
        }

        if matches!(self.config.render_occasion, RenderOccasion::Changes) {
            self.render_queued = true;
        }
        collided
    }
}

/// Two offsets less than the modulus apart land on different wrapped cells.
proof fn lemma_mod_offsets_distinct(base: int, i: int, j: int, m: int)
    requires
        m >= 1,
        base >= 0,
        0 <= i < j,
        j - i < m,
    ensures
        (base + i) % m != (base + j) % m,
{
    if (base + i) % m == (base + j) % m {
        lemma_fundamental_div_mod(base + i, m);
        lemma_fundamental_div_mod(base + j, m);
        let qi = (base + i) / m;
        let qj = (base + j) / m;
        assert(j - i == m * qj - m * qi);
        assert(m * qj - m * qi == m * (qj - qi)) by (nonlinear_arith);
        assert(qj - qi >= 1 ==> m * (qj - qi) >= m) by (nonlinear_arith)
            requires
                m >= 1,
        ;
        assert(qj - qi <= 0 ==> m * (qj - qi) <= 0) by (nonlinear_arith)
            requires
                m >= 1,
        ;
        assert(false);
    }
}

/// A resolved cell lies inside the framebuffer.
proof fn lemma_resolve_in_range(w: int, h: int, wrap: bool, x: int, y: int)
    requires
        w >= 1,
        h >= 1,
        x >= 0,
        y >= 0,
    ensures
        resolve_pixel(w, h, wrap, x, y) is Some ==> 0 <= resolve_pixel(w, h, wrap, x, y).unwrap()
            < w * h,
{
    if wrap {
        lemma_mod_division_less_than_divisor(y, h);
        lemma_mod_division_less_than_divisor(x, w);
        assert((y % h) * w + x % w < h * w && (y % h) * w + x % w >= 0) by (nonlinear_arith)
            requires
                0 <= y % h < h,
                0 <= x % w < w,
                w >= 1,
                h >= 1,
        ;
        assert(h * w == w * h) by (nonlinear_arith);
    } else if x < w && y < h {
        assert(y * w + x < h * w && y * w + x >= 0) by (nonlinear_arith)
            requires
                0 <= y < h,
                0 <= x < w,
                w >= 1,
        ;
        assert(h * w == w * h) by (nonlinear_arith);
    }
}

/// Two distinct sprite bits resolve to distinct cells, as long as the
/// screen is at least eight pixels wide when pixels wrap, and the rows stay
/// within one screen height.
proof fn lemma_resolve_injective(
    w: int,
    h: int,
    wrap: bool,
    x: int,
    y: int,
    b1: int,
    r1: int,
    b2: int,
    r2: int,
)
    requires
        w >= 1,
        h >= 1,
        x >= 0,
        y >= 0,
        0 <= b1 < 8,
        0 <= b2 < 8,
        0 <= r1,
        0 <= r2,
        wrap ==> w >= 8,
        wrap ==> r1 < h && r2 < h,
        !(b1 == b2 && r1 == r2),
        resolve_pixel(w, h, wrap, x + b1, y + r1) is Some,
        resolve_pixel(w, h, wrap, x + b2, y + r2) is Some,
    ensures
        resolve_pixel(w, h, wrap, x + b1, y + r1) != resolve_pixel(w, h, wrap, x + b2, y + r2),
{
    if wrap {
        let c1 = (x + b1) % w;
        let c2 = (x + b2) % w;
        let ry1 = (y + r1) % h;
        let ry2 = (y + r2) % h;
        lemma_mod_division_less_than_divisor(x + b1, w);
        lemma_mod_division_less_than_divisor(x + b2, w);
        lemma_mod_division_less_than_divisor(y + r1, h);
        lemma_mod_division_less_than_divisor(y + r2, h);
        if r1 == r2 {
            if b1 < b2 {
                lemma_mod_offsets_distinct(x, b1, b2, w);
            } else {
                lemma_mod_offsets_distinct(x, b2, b1, w);
            }
            assert(ry1 * w + c1 != ry2 * w + c2);
        } else {
            if r1 < r2 {
                lemma_mod_offsets_distinct(y, r1, r2, h);
            } else {
                lemma_mod_offsets_distinct(y, r2, r1, h);
            }
            assert(ry1 != ry2 && 0 <= c1 < w && 0 <= c2 < w ==> ry1 * w + c1 != ry2 * w + c2)
                by (nonlinear_arith)
                requires
                    0 <= ry1,
                    0 <= ry2,
                    w >= 1,
            ;
        }
    } else {
        let cx1 = x + b1;
        let cx2 = x + b2;
        let cy1 = y + r1;
        let cy2 = y + r2;
        if r1 == r2 {
            assert(cy1 * w + cx1 != cy2 * w + cx2);
        } else {
            assert(cy1 != cy2 && 0 <= cx1 < w && 0 <= cx2 < w ==> cy1 * w + cx1 != cy2 * w + cx2)
                by (nonlinear_arith)
                requires
                    0 <= cy1,
                    0 <= cy2,
                    w >= 1,
            ;
        }
    }
}

/// Whether one of the first `k` bits of a row byte is set and resolves to
/// cell `idx`.
pub open spec fn byte_covers(
    byte: u8,
    x: int,
    y: int,
    w: int,
    h: int,
    wrap: bool,
    k: int,
    idx: int,
) -> bool {
    exists|b: int|
        8 - k <= b < 8 && sprite_row_bit(byte, b) && resolve_pixel(w, h, wrap, x + b, y) == Some(
            idx,
        )
}

/// Drawing the first `k` bits of a row byte XORs exactly the covered cells,
/// and collides exactly when a covered cell was lit.
proof fn lemma_draw_byte_characterization(
    fb: Seq<bool>,
    byte: u8,
    x: int,
    y: int,
    w: int,
    h: int,
    wrap: bool,
    k: int,
)
    requires
        w >= 1,
        h >= 1,
        x >= 0,
        y >= 0,
        fb.len() == w * h,
        0 <= k <= 8,
        wrap ==> w >= 8,
    ensures
        ({
            let (fb2, coll) = draw_byte_partial(fb, byte, x, y, w, h, wrap, k);
            &&& fb2.len() == fb.len()
            &&& forall|idx: int|
                0 <= idx < fb.len() ==> fb2[idx] == (fb[idx] != byte_covers(
                    byte,
                    x,
                    y,
                    w,
                    h,
                    wrap,
                    k,
                    idx,
                ))
            &&& coll == exists|idx: int|
                0 <= idx < fb.len() && #[trigger] byte_covers(byte, x, y, w, h, wrap, k, idx)
                    && fb[idx]
        }),
    decreases k,
{
    let (fb2, coll) = draw_byte_partial(fb, byte, x, y, w, h, wrap, k);
    if k <= 0 {
        assert(forall|idx: int|
            0 <= idx < fb.len() ==> !byte_covers(byte, x, y, w, h, wrap, k, idx));
    } else {
        lemma_draw_byte_characterization(fb, byte, x, y, w, h, wrap, k - 1);
        let prev = draw_byte_partial(fb, byte, x, y, w, h, wrap, k - 1);
        let b0 = 8 - k;
        let on = sprite_row_bit(byte, b0);
        let res = resolve_pixel(w, h, wrap, x + b0, y);

        if !on || res is None {
            assert(fb2 == prev.0 && coll == prev.1);
            assert forall|idx: int|
                #![trigger byte_covers(byte, x, y, w, h, wrap, k, idx)]
                #![trigger byte_covers(byte, x, y, w, h, wrap, k - 1, idx)]
                0 <= idx < fb.len() implies byte_covers(byte, x, y, w, h, wrap, k, idx)
                == byte_covers(byte, x, y, w, h, wrap, k - 1, idx) by {
                if byte_covers(byte, x, y, w, h, wrap, k, idx) {
                    let b = choose|b: int|
                        8 - k <= b < 8 && sprite_row_bit(byte, b) && resolve_pixel(
                            w,
                            h,
                            wrap,
                            x + b,
                            y,
                        ) == Some(idx);
                    assert(b != b0);
                    assert(byte_covers(byte, x, y, w, h, wrap, k - 1, idx));
                }
                if byte_covers(byte, x, y, w, h, wrap, k - 1, idx) {
                    let b = choose|b: int|
                        8 - (k - 1) <= b < 8 && sprite_row_bit(byte, b) && resolve_pixel(
                            w,
                            h,
                            wrap,
                            x + b,
                            y,
                        ) == Some(idx);
                    assert(8 - k <= b < 8 && sprite_row_bit(byte, b) && resolve_pixel(
                        w,
                        h,
                        wrap,
                        x + b,
                        y,
                    ) == Some(idx));
                }
            }
        } else {
            let p = res.unwrap();
            lemma_resolve_in_range(w, h, wrap, x + b0, y);
            assert(0 <= p < fb.len());

            assert(!byte_covers(byte, x, y, w, h, wrap, k - 1, p)) by {
                if byte_covers(byte, x, y, w, h, wrap, k - 1, p) {
                    let b = choose|b: int|
                        8 - (k - 1) <= b < 8 && sprite_row_bit(byte, b) && resolve_pixel(
                            w,
                            h,
                            wrap,
                            x + b,
                            y,
                        ) == Some(p);
                    lemma_resolve_injective(w, h, wrap, x, y, b, 0, b0, 0);
                    assert(false);
                }
            }
            assert(prev.0[p] == fb[p]);
            assert(fb2 == prev.0.update(p, !prev.0[p]) && coll == (prev.1 || fb[p]));

            assert(byte_covers(byte, x, y, w, h, wrap, k, p)) by {
                assert(8 - k <= b0 < 8 && sprite_row_bit(byte, b0) && resolve_pixel(
                    w,
                    h,
                    wrap,
                    x + b0,
                    y,
                ) == Some(p));
            }

            assert forall|idx: int|
                #![trigger byte_covers(byte, x, y, w, h, wrap, k, idx)]
                #![trigger byte_covers(byte, x, y, w, h, wrap, k - 1, idx)]
                0 <= idx < fb.len() && idx != p implies byte_covers(byte, x, y, w, h, wrap, k, idx)
                == byte_covers(byte, x, y, w, h, wrap, k - 1, idx) by {
                if byte_covers(byte, x, y, w, h, wrap, k, idx) {
                    let b = choose|b: int|
                        8 - k <= b < 8 && sprite_row_bit(byte, b) && resolve_pixel(
                            w,
                            h,
                            wrap,
                            x + b,
                            y,
                        ) == Some(idx);
                    assert(b != b0);
                    assert(byte_covers(byte, x, y, w, h, wrap, k - 1, idx));
                }
                if byte_covers(byte, x, y, w, h, wrap, k - 1, idx) {
                    let b = choose|b: int|
                        8 - (k - 1) <= b < 8 && sprite_row_bit(byte, b) && resolve_pixel(
                            w,
                            h,
                            wrap,
                            x + b,
                            y,
                        ) == Some(idx);
                    assert(8 - k <= b < 8 && sprite_row_bit(byte, b) && resolve_pixel(
                        w,
                        h,
                        wrap,
                        x + b,
                        y,
                    ) == Some(idx));
                }
            }

            assert forall|idx: int| 0 <= idx < fb.len() implies fb2[idx] == (fb[idx]
                != byte_covers(byte, x, y, w, h, wrap, k, idx)) by {
                if idx == p {
                } else {
                }
            }

            if coll {
                if prev.1 {
                    let idx = choose|idx: int|
                        0 <= idx < fb.len() && #[trigger] byte_covers(
                            byte,
                            x,
                            y,
                            w,
                            h,
                            wrap,
                            k - 1,
                            idx,
                        ) && fb[idx];
                    let b = choose|b: int|
                        8 - (k - 1) <= b < 8 && sprite_row_bit(byte, b) && resolve_pixel(
                            w,
                            h,
                            wrap,
                            x + b,
                            y,
                        ) == Some(idx);
                    assert(8 - k <= b < 8 && sprite_row_bit(byte, b) && resolve_pixel(
                        w,
                        h,
                        wrap,
                        x + b,
                        y,
                    ) == Some(idx));
                    assert(byte_covers(byte, x, y, w, h, wrap, k, idx) && fb[idx]);
                } else {
                    assert(byte_covers(byte, x, y, w, h, wrap, k, p) && fb[p]);
                }
            }
            if exists|idx: int|
                0 <= idx < fb.len() && #[trigger] byte_covers(byte, x, y, w, h, wrap, k, idx)
                    && fb[idx] {
                let idx = choose|idx: int|
                    0 <= idx < fb.len() && #[trigger] byte_covers(byte, x, y, w, h, wrap, k, idx)
                        && fb[idx];
                let b = choose|b: int|
                    8 - k <= b < 8 && sprite_row_bit(byte, b) && resolve_pixel(w, h, wrap, x + b, y)
                        == Some(idx);
                if b == b0 {
                    assert(idx == p);
                    assert(coll);
                } else {
                    assert(byte_covers(byte, x, y, w, h, wrap, k - 1, idx));
                    assert(prev.1);
                }
            }
        }
    }
}

/// Whether a set bit of one of the first `rows` sprite rows resolves to
/// cell `idx`.
pub open spec fn sprite_covers(
    sprite: Seq<u8>,
    x: int,
    y: int,
    w: int,
    h: int,
    wrap: bool,
    rows: int,
    idx: int,
) -> bool {
    exists|r: int, b: int|
        0 <= r < rows && 0 <= b < 8 && sprite_row_bit(sprite[r], b) && resolve_pixel(
            w,
            h,
            wrap,
            x + b,
            y + r,
        ) == Some(idx)
}

/// Drawing the first `rows` sprite rows XORs exactly the covered cells, and
/// collides exactly when a covered cell was lit beforehand. Needs every bit
/// to land on its own cell: with pixel wrapping the screen must be at least
/// eight wide and the sprite no taller than the screen.
proof fn lemma_draw_sprite_rows_characterization(
    fb: Seq<bool>,
    sprite: Seq<u8>,
    x: int,
    y: int,
    w: int,
    h: int,
    wrap: bool,
    rows: int,
)
    requires
        w >= 1,
        h >= 1,
        x >= 0,
        y >= 0,
        fb.len() == w * h,
        0 <= rows <= sprite.len(),
        wrap ==> w >= 8 && sprite.len() <= h,
    ensures
        ({
            let (fb2, coll) = draw_sprite_rows(fb, sprite, x, y, w, h, wrap, rows);
            &&& fb2.len() == fb.len()
            &&& forall|idx: int|
                0 <= idx < fb.len() ==> fb2[idx] == (fb[idx] != sprite_covers(
                    sprite,
                    x,
                    y,
                    w,
                    h,
                    wrap,
                    rows,
                    idx,
                ))
            &&& coll == exists|idx: int|
                0 <= idx < fb.len() && #[trigger] sprite_covers(sprite, x, y, w, h, wrap, rows, idx)
                    && fb[idx]
        }),
    decreases rows,
{
    let (fb2, coll) = draw_sprite_rows(fb, sprite, x, y, w, h, wrap, rows);
    if rows <= 0 {
        assert(forall|idx: int|
            0 <= idx < fb.len() ==> !sprite_covers(sprite, x, y, w, h, wrap, rows, idx));
    } else {
        lemma_draw_sprite_rows_characterization(fb, sprite, x, y, w, h, wrap, rows - 1);
        let prev = draw_sprite_rows(fb, sprite, x, y, w, h, wrap, rows - 1);
        let r0 = rows - 1;
        let row = sprite[r0];
        lemma_draw_byte_characterization(prev.0, row, x, y + r0, w, h, wrap, 8);
        let step = draw_byte_partial(prev.0, row, x, y + r0, w, h, wrap, 8);
        assert(fb2 == step.0 && coll == (prev.1 || step.1));

        // A cell covered by the new row is covered by no earlier row, so its
        // value in `prev.0` is still the original one.
        assert forall|idx: int|
            0 <= idx < fb.len() && #[trigger] byte_covers(row, x, y + r0, w, h, wrap, 8, idx)
            implies !sprite_covers(sprite, x, y, w, h, wrap, rows - 1, idx) && prev.0[idx]
            == fb[idx] by {
            if sprite_covers(sprite, x, y, w, h, wrap, rows - 1, idx) {
                let (r, b) = choose|r: int, b: int|
                    0 <= r < rows - 1 && 0 <= b < 8 && sprite_row_bit(sprite[r], b)
                        && resolve_pixel(w, h, wrap, x + b, y + r) == Some(idx);
                let b2 = choose|b2: int|
                    8 - 8 <= b2 < 8 && sprite_row_bit(row, b2) && resolve_pixel(
                        w,
                        h,
                        wrap,
                        x + b2,
                        y + r0,
                    ) == Some(idx);
                lemma_resolve_injective(w, h, wrap, x, y, b, r, b2, r0);
                assert(false);
            }
        }

        // Covering by `rows` rows splits into the earlier rows and the new
        // row.
        assert forall|idx: int|
            #![trigger sprite_covers(sprite, x, y, w, h, wrap, rows, idx)]
            #![trigger sprite_covers(sprite, x, y, w, h, wrap, rows - 1, idx)]
            #![trigger byte_covers(row, x, y + r0, w, h, wrap, 8, idx)]
            0 <= idx < fb.len() implies sprite_covers(sprite, x, y, w, h, wrap, rows, idx) == (
        sprite_covers(sprite, x, y, w, h, wrap, rows - 1, idx) || byte_covers(
            row,
            x,
            y + r0,
            w,
            h,
            wrap,
            8,
            idx,
        )) by {
            if sprite_covers(sprite, x, y, w, h, wrap, rows, idx) {
                let (r, b) = choose|r: int, b: int|
                    0 <= r < rows && 0 <= b < 8 && sprite_row_bit(sprite[r], b) && resolve_pixel(
                        w,
                        h,
                        wrap,
                        x + b,
                        y + r,
                    ) == Some(idx);
                if r == r0 {
                    assert(0 <= b < 8 && sprite_row_bit(row, b) && resolve_pixel(
                        w,
                        h,
                        wrap,
                        x + b,
                        y + r0,
                    ) == Some(idx));
                    assert(byte_covers(row, x, y + r0, w, h, wrap, 8, idx));
                } else {
                    assert(sprite_covers(sprite, x, y, w, h, wrap, rows - 1, idx));
                }
            }
            if sprite_covers(sprite, x, y, w, h, wrap, rows - 1, idx) {
                let (r, b) = choose|r: int, b: int|
                    0 <= r < rows - 1 && 0 <= b < 8 && sprite_row_bit(sprite[r], b)
                        && resolve_pixel(w, h, wrap, x + b, y + r) == Some(idx);
                assert(0 <= r < rows && 0 <= b < 8 && sprite_row_bit(sprite[r], b)
                    && resolve_pixel(w, h, wrap, x + b, y + r) == Some(idx));
                assert(sprite_covers(sprite, x, y, w, h, wrap, rows, idx));
            }
            if byte_covers(row, x, y + r0, w, h, wrap, 8, idx) {
                let b = choose|b: int|
                    0 <= b < 8 && sprite_row_bit(row, b) && resolve_pixel(w, h, wrap, x + b, y + r0)
                        == Some(idx);
                assert(0 <= r0 < rows && 0 <= b < 8 && sprite_row_bit(sprite[r0], b)
                    && resolve_pixel(w, h, wrap, x + b, y + r0) == Some(idx));
                assert(sprite_covers(sprite, x, y, w, h, wrap, rows, idx));
            }
        }

        // The framebuffer clause.
        assert forall|idx: int| 0 <= idx < fb.len() implies fb2[idx] == (fb[idx] != sprite_covers(
            sprite,
            x,
            y,
            w,
            h,
            wrap,
            rows,
            idx,
        )) by {
            assert(fb2[idx] == (prev.0[idx] != byte_covers(row, x, y + r0, w, h, wrap, 8, idx)));
            assert(prev.0[idx] == (fb[idx] != sprite_covers(sprite, x, y, w, h, wrap, rows - 1, idx)));
        }

        // The collision clause.
        if coll {
            if prev.1 {
                let idx = choose|idx: int|
                    0 <= idx < fb.len() && #[trigger] sprite_covers(
                        sprite,
                        x,
                        y,
                        w,
                        h,
                        wrap,
                        rows - 1,
                        idx,
                    ) && fb[idx];
                assert(sprite_covers(sprite, x, y, w, h, wrap, rows, idx) && fb[idx]);
            } else {
                let idx = choose|idx: int|
                    0 <= idx < fb.len() && #[trigger] byte_covers(row, x, y + r0, w, h, wrap, 8, idx)
                        && prev.0[idx];
                assert(prev.0[idx] == fb[idx]);
                assert(sprite_covers(sprite, x, y, w, h, wrap, rows, idx) && fb[idx]);
            }
        }
        if exists|idx: int|
            0 <= idx < fb.len() && #[trigger] sprite_covers(sprite, x, y, w, h, wrap, rows, idx)
                && fb[idx] {
            let idx = choose|idx: int|
                0 <= idx < fb.len() && #[trigger] sprite_covers(sprite, x, y, w, h, wrap, rows, idx)
                    && fb[idx];
            if sprite_covers(sprite, x, y, w, h, wrap, rows - 1, idx) {
                assert(prev.1);
            } else {
                assert(byte_covers(row, x, y + r0, w, h, wrap, 8, idx));
                assert(prev.0[idx] == fb[idx]);
                assert(step.1);
            }
        }
    }
}

/// The starting column of a sprite draw: wrapped into the screen, or taken
/// as given when position wrapping is off.
pub open spec fn start_coord(pos: u8, extent: int, wrap_positions: bool) -> int {
    if wrap_positions {
        (pos as int) % extent
    } else {
        pos as int
    }
}

/// The draw law: a whole sprite draw XORs the sprite into the resolved
/// target cells, and the collision flag is set exactly when some set sprite
/// bit landed on a cell that was already lit. Holds whenever every bit
/// lands on its own cell: always when clipping, and when the screen is at
/// least eight pixels wide and at least as tall as the sprite when pixels
/// wrap. (On a screen narrower than eight with pixel wrapping, two bits of
/// one row can fall on the same cell and cancel out.)
pub proof fn lemma_draw_sprite_characterization(
    fb: Seq<bool>,
    sprite: Seq<u8>,
    x_pos: u8,
    y_pos: u8,
    w: int,
    h: int,
    wrap_positions: bool,
    wrap_pixels: bool,
)
    requires
        w >= 1,
        h >= 1,
        fb.len() == w * h,
        sprite.len() <= 15,
        wrap_pixels ==> w >= 8 && sprite.len() <= h,
    ensures
        (!wrap_positions && (x_pos >= w || y_pos >= h)) ==> draw_sprite_spec(
            fb,
            sprite,
            x_pos,
            y_pos,
            w,
            h,
            wrap_positions,
            wrap_pixels,
        ) == (fb, false),
        (wrap_positions || (x_pos < w && y_pos < h)) ==> ({
            let (fb2, coll) = draw_sprite_spec(
                fb,
                sprite,
                x_pos,
                y_pos,
                w,
                h,
                wrap_positions,
                wrap_pixels,
            );
            let x = start_coord(x_pos, w, wrap_positions);
            let y = start_coord(y_pos, h, wrap_positions);
            &&& fb2.len() == fb.len()
            &&& forall|idx: int|
                0 <= idx < fb.len() ==> fb2[idx] == (fb[idx] != sprite_covers(
                    sprite,
                    x,
                    y,
                    w,
                    h,
                    wrap_pixels,
                    sprite.len() as int,
                    idx,
                ))
            &&& coll == exists|idx: int|
                0 <= idx < fb.len() && #[trigger] sprite_covers(
                    sprite,
                    x,
                    y,
                    w,
                    h,
                    wrap_pixels,
                    sprite.len() as int,
                    idx,
                ) && fb[idx]
        }),
{
    let x = start_coord(x_pos, w, wrap_positions);
    let y = start_coord(y_pos, h, wrap_positions);
    if wrap_positions {
        lemma_mod_division_less_than_divisor(x_pos as int, w);
        lemma_mod_division_less_than_divisor(y_pos as int, h);
        assert(x == (x_pos as int) % w);
        assert(y == (y_pos as int) % h);
        lemma_draw_sprite_rows_characterization(fb, sprite, x, y, w, h, wrap_pixels, sprite.len() as int);
        assert(draw_sprite_spec(fb, sprite, x_pos, y_pos, w, h, wrap_positions, wrap_pixels)
            == draw_sprite_rows(fb, sprite, x, y, w, h, wrap_pixels, sprite.len() as int));
    } else if x_pos < w && y_pos < h {
        assert(x == x_pos as int);
        assert(y == y_pos as int);
        lemma_draw_sprite_rows_characterization(fb, sprite, x, y, w, h, wrap_pixels, sprite.len() as int);
        assert(draw_sprite_spec(fb, sprite, x_pos, y_pos, w, h, wrap_positions, wrap_pixels)
            == draw_sprite_rows(fb, sprite, x, y, w, h, wrap_pixels, sprite.len() as int));
    }
}

} // verus!
