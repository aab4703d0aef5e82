use vstd::prelude::*;
use vstd::arithmetic::div_mod::{lemma_fundamental_div_mod_converse, lemma_multiply_divide_lt};

verus! {

/// A width and height in pixels.
pub struct Size {
    pub width: usize,
    pub height: usize,
}

impl Size {
    pub fn new(width: usize, height: usize) -> (r: Size)
        ensures
            r.width == width,
            r.height == height,
    {
        Size { width, height }
    }

    pub fn get(&self) -> (r: (usize, usize))
        ensures
            r.0 == self.width,
            r.1 == self.height,
    {
        (self.width, self.height)
    }

    pub fn set(&mut self, width: usize, height: usize)
        ensures
            final(self).width == width,
            final(self).height == height,
    {
        self.width = width;
        self.height = height;
    }
}

/// A pixel position inside a row-major buffer of a known row width, kept
/// consistent with its flat index.
pub struct Position {
    pub index: usize,
    pub x: usize,
    pub y: usize,
    pub screen_width: usize,
}

impl Position {
    /// Consistency: the flat index matches the coordinates.
    pub open spec fn wf(self) -> bool {
        self.index == self.screen_width * self.y + self.x
    }

    pub fn from_coords(x: usize, y: usize, screen_width: usize) -> (r: Position)
        requires
            screen_width * y + x <= usize::MAX,
        ensures
            r.wf(),
            r.x == x,
            r.y == y,
            r.screen_width == screen_width,
    {
        Position { index: screen_width * y + x, x, y, screen_width }
    }

    pub fn from_index(index: usize, screen_width: usize) -> (r: Position)
        requires
            screen_width >= 1,
        ensures
            r.wf(),
            r.index == index,
            r.x == index % screen_width,
            r.y == index / screen_width,
            r.screen_width == screen_width,
    {
        let r = Position {
            index,
            x: index % screen_width,
            y: index / screen_width,
            screen_width,
        };
        proof {
            vstd::arithmetic::div_mod::lemma_fundamental_div_mod(index as int, screen_width as int);
        }
        r
    }

    /// Scale the position by an integer factor, row width included.
    pub fn scale(self, factor: usize) -> (r: Position)
        requires
            self.wf(),
            self.screen_width * factor <= usize::MAX,
            self.x * factor <= usize::MAX,
            self.y * factor <= usize::MAX,
            (self.screen_width * factor) * (self.y * factor) + self.x * factor <= usize::MAX,
        ensures
            r.wf(),
            r.screen_width == self.screen_width * factor,
            r.x == self.x * factor,
            r.y == self.y * factor,
    {
        let screen_width: usize = self.screen_width * factor;
        let x: usize = self.x * factor;
        let y: usize = self.y * factor;
        Position { index: screen_width * y + x, x, y, screen_width }
    }

    /// Move the position into a frame with the given margins, widening the
    /// row by the left and right margin.
    pub fn add_padding(self, x_margin: usize, y_margin: usize) -> (r: Position)
        requires
            self.wf(),
            self.screen_width + x_margin * 2 <= usize::MAX,
            self.x + x_margin <= usize::MAX,
            self.y + y_margin <= usize::MAX,
            (self.screen_width + x_margin * 2) * (self.y + y_margin) + self.x + x_margin
                <= usize::MAX,
        ensures
            r.wf(),
            r.screen_width == self.screen_width + x_margin * 2,
            r.x == self.x + x_margin,
            r.y == self.y + y_margin,
    {
        let screen_width: usize = self.screen_width + x_margin * 2;
        let x: usize = self.x + x_margin;
        let y: usize = self.y + y_margin;
        Position { index: screen_width * y + x, x, y, screen_width }
    }

    pub fn get_screen_width(&self) -> (r: usize)
        ensures
            r == self.screen_width,
    {
        self.screen_width
    }
}

/// The largest integer factor by which the base resolution fits the
/// window.
pub fn compute_size_factor(
    window_width: usize,
    window_height: usize,
    base_width: usize,
    base_height: usize,
) -> (r: usize)
    requires
        base_width >= 1,
        base_height >= 1,
    ensures
        r == if window_width / base_width < window_height / base_height {
            window_width / base_width
        } else {
            window_height / base_height
        },
{
    let by_width: usize = window_width / base_width;
    let by_height: usize = window_height / base_height;
    if by_width < by_height {
        by_width
    } else {
        by_height
    }
}

/// The color one window pixel shows: the scaled framebuffer cell under it,
/// or the border fill outside the centered scaled image.
pub open spec fn frame_color(
    fb: Seq<bool>,
    base_width: int,
    base_height: int,
    window_width: int,
    window_height: int,
    size_factor: int,
    active_color: u32,
    inactive_color: u32,
    border_color: u32,
    px: int,
    py: int,
) -> u32 {
    let x_margin = (window_width - base_width * size_factor) / 2;
    let y_margin = (window_height - base_height * size_factor) / 2;
    if x_margin <= px < x_margin + base_width * size_factor && y_margin <= py < y_margin
        + base_height * size_factor {
        if fb[((py - y_margin) / size_factor) * base_width + ((px - x_margin) / size_factor)] {
            active_color
        } else {
            inactive_color
        }
    } else {
        border_color
    }
}

/// Compose one whole window frame: the framebuffer scaled by the integer
/// factor, centered, with border fill around it.
pub fn render_frame(
    framebuffer: &Vec<bool>,
    base_width: usize,
    base_height: usize,
    window_width: usize,
    window_height: usize,
    size_factor: usize,
    active_color: u32,
    inactive_color: u32,
    border_color: u32,
) -> (r: Vec<u32>)
    requires
        base_width >= 1,
        base_height >= 1,
        size_factor >= 1,
        framebuffer@.len() == base_width * base_height,
        base_width * size_factor <= window_width,
        base_height * size_factor <= window_height,
        window_width * window_height <= usize::MAX,
    ensures
        r@.len() == window_width * window_height,
        forall|px: int, py: int|
            0 <= px < window_width && 0 <= py < window_height ==> r@[py * window_width + px]
                == frame_color(
                framebuffer@,
                base_width as int,
                base_height as int,
                window_width as int,
                window_height as int,
                size_factor as int,
                active_color,
                inactive_color,
                border_color,
                px,
                py,
            ),
{
    let fb_len: usize = framebuffer.len();
    let scaled_width: usize = base_width * size_factor;
    let scaled_height: usize = base_height * size_factor;
    let x_margin: usize = (window_width - scaled_width) / 2;
    let y_margin: usize = (window_height - scaled_height) / 2;

    let mut out: Vec<u32> = Vec::new();
    let mut py: usize = 0;
    while py < window_height
        invariant
            base_width >= 1,
            base_height >= 1,
            size_factor >= 1,
            framebuffer@.len() == base_width * base_height,
            fb_len == framebuffer@.len(),
            scaled_width == base_width * size_factor <= window_width,
            scaled_height == base_height * size_factor <= window_height,
            window_width * window_height <= usize::MAX,
            x_margin == (window_width - scaled_width) / 2,
            y_margin == (window_height - scaled_height) / 2,
            py <= window_height,
            out@.len() == py * window_width,
            forall|j: int|
                0 <= j < out@.len() ==> out@[j] == frame_color(
                    framebuffer@,
                    base_width as int,
                    base_height as int,
                    window_width as int,
                    window_height as int,
                    size_factor as int,
                    active_color,
                    inactive_color,
                    border_color,
                    j % (window_width as int),
                    j / (window_width as int),
                ),
        decreases window_height - py,
    {
        proof {
            assert((py + 1) * window_width <= window_height * window_width) by (nonlinear_arith)
                requires
                    py + 1 <= window_height,
                    window_width >= 0,
            ;
            assert((py + 1) * window_width == py * window_width + window_width)
                by (nonlinear_arith);
            assert(window_height * window_width == window_width * window_height)
                by (nonlinear_arith);
        }
        let mut px: usize = 0;
        while px < window_width
            invariant
                base_width >= 1,
                base_height >= 1,
                size_factor >= 1,
                framebuffer@.len() == base_width * base_height,
                fb_len == framebuffer@.len(),
                scaled_width == base_width * size_factor <= window_width,
                scaled_height == base_height * size_factor <= window_height,
                window_width * window_height <= usize::MAX,
                x_margin == (window_width - scaled_width) / 2,
                y_margin == (window_height - scaled_height) / 2,
                py < window_height,
                px <= window_width,
                py * window_width + window_width <= window_width * window_height,
                out@.len() == py * window_width + px,
                forall|j: int|
                    0 <= j < out@.len() ==> out@[j] == frame_color(
                        framebuffer@,
                        base_width as int,
                        base_height as int,
                        window_width as int,
                        window_height as int,
                        size_factor as int,
                        active_color,
                        inactive_color,
                        border_color,
                        j % (window_width as int),
                        j / (window_width as int),
                    ),
            decreases window_width - px,
        {
            let in_x: bool = x_margin <= px && px < x_margin + scaled_width;
            let in_y: bool = y_margin <= py && py < y_margin + scaled_height;
            let color: u32 = if in_x && in_y {
                let fx: usize = (px - x_margin) / size_factor;
                let fy: usize = (py - y_margin) / size_factor;
                proof {
                    assert(size_factor * base_width == base_width * size_factor)
                        by (nonlinear_arith);
                    assert(size_factor * base_height == base_height * size_factor)
                        by (nonlinear_arith);
                    lemma_multiply_divide_lt(
                        (px - x_margin) as int,
                        size_factor as int,
                        base_width as int,
                    );
                    lemma_multiply_divide_lt(
                        (py - y_margin) as int,
                        size_factor as int,
                        base_height as int,
                    );
                    assert(fy * base_width + fx < base_height * base_width) by (nonlinear_arith)
                        requires
                            0 <= fy < base_height,
                            0 <= fx < base_width,
                            base_width >= 1,
                    ;
                    assert(base_height * base_width == base_width * base_height)
                        by (nonlinear_arith);
                    assert(fy * base_width + fx < fb_len);
                }
                if framebuffer[fy * base_width + fx] {
                    active_color
                } else {
                    inactive_color
                }
            } else {
                border_color
            };
            proof {
                lemma_fundamental_div_mod_converse(
                    (py * window_width + px) as int,
                    window_width as int,
                    py as int,
                    px as int,
                );
            }
            out.push(color);
            px += 1;
        }
        py += 1;
        proof {
            assert((py - 1) * window_width + window_width == py * window_width) by (nonlinear_arith)
                ;
        }
    }

    proof {
        assert(window_height * window_width == window_width * window_height) by (nonlinear_arith);
        assert forall|px: int, py2: int|
            0 <= px < window_width && 0 <= py2 < window_height implies out@[py2 * window_width
            + px] == frame_color(
            framebuffer@,
            base_width as int,
            base_height as int,
            window_width as int,
            window_height as int,
            size_factor as int,
            active_color,
            inactive_color,
            border_color,
            px,
            py2,
        ) by {
            lemma_fundamental_div_mod_converse(
                py2 * (window_width as int) + px,
                window_width as int,
                py2,
                px,
            );
            assert((py2 + 1) * window_width <= window_height * window_width) by (nonlinear_arith)
                requires
                    py2 + 1 <= window_height,
                    window_width >= 0,
            ;
            assert(py2 * (window_width as int) + px < (py2 + 1) * window_width)
                by (nonlinear_arith)
                requires
                    px < window_width,
                    py2 >= 0,
            ;
            assert(window_height * window_width == window_width * window_height)
                by (nonlinear_arith);
        }
    }
    out
}

} // verus!
