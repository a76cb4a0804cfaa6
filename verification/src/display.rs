//! The framebuffer: a grid of pixels, each lit or dark, addressed by column
//! and row with both coordinates wrapping around the edges.

use vstd::prelude::*;

verus! {

/// Width of the reference grid, in pixels.
pub const WIDTH: usize = 80;

/// Height of the reference grid, in pixels.
pub const HEIGHT: usize = 64;

/// A grid is a non-empty sequence of columns of one common non-zero height.
pub open spec fn grid_wf(grid: Seq<Seq<bool>>) -> bool {
    &&& grid.len() > 0
    &&& grid[0].len() > 0
    &&& forall|x: int| 0 <= x < grid.len() ==> (#[trigger] grid[x]).len() == grid[0].len()
}

/// Number of columns.
pub open spec fn grid_width(grid: Seq<Seq<bool>>) -> int {
    grid.len() as int
}

/// Number of rows.
pub open spec fn grid_height(grid: Seq<Seq<bool>>) -> int {
    grid[0].len() as int
}

/// The pixel at column `x`, row `y`, both taken modulo the grid's size.
pub open spec fn grid_get(grid: Seq<Seq<bool>>, x: int, y: int) -> bool {
    grid[x % grid_width(grid)][y % grid_height(grid)]
}

/// The grid with the pixel at column `x`, row `y`, both taken modulo the
/// grid's size, set to `lit`.
pub open spec fn grid_set(grid: Seq<Seq<bool>>, x: int, y: int, lit: bool) -> Seq<Seq<bool>> {
    let cx = x % grid_width(grid);
    let cy = y % grid_height(grid);
    grid.update(cx, grid[cx].update(cy, lit))
}

/// The all-dark grid of the given size.
pub open spec fn blank_grid(width: int, height: int) -> Seq<Seq<bool>> {
    Seq::new(width as nat, |x: int| Seq::new(height as nat, |y: int| false))
}

/// In a grid stored column by column, the cell at column `cx`, row `cy` has
/// an index of its own below `width * height`, from which column and row can
/// be read back.
proof fn lemma_cell_index(width: int, height: int, cx: int, cy: int)
    requires
        0 <= cx < width,
        0 <= cy < height,
    ensures
        0 <= cx * height + cy < width * height,
        (cx * height + cy) / height == cx,
        (cx * height + cy) % height == cy,
{
    assert(0 <= cx * height) by (nonlinear_arith)
        requires
            0 <= cx,
            0 < height,
    ;
    assert(cx * height + height <= width * height) by (nonlinear_arith)
        requires
            cx + 1 <= width,
            0 < height,
    ;
    vstd::arithmetic::div_mod::lemma_fundamental_div_mod_converse(cx * height + cy, height, cx, cy);
}

/// The framebuffer.
pub struct DisplayState {
    width: usize,
    height: usize,
    state: Vec<bool>,
}

impl View for DisplayState {
    type V = Seq<Seq<bool>>;

    closed spec fn view(&self) -> Seq<Seq<bool>> {
        Seq::new(
            self.width as nat,
            |x: int| Seq::new(self.height as nat, |y: int| self.state@[x * self.height + y]),
        )
    }
}

impl DisplayState {
    /// What holds of the stored pixels: one for each cell of the grid.
    pub closed spec fn layout_wf(&self) -> bool {
        &&& self.width > 0
        &&& self.height > 0
        &&& self.state@.len() == self.width * self.height
        &&& self.state@.len() <= isize::MAX
    }

    /// Whether the framebuffer has the shape that every operation keeps.
    pub open spec fn wf(&self) -> bool {
        &&& self.layout_wf()
        &&& grid_wf(self@)
        &&& self@.len() <= isize::MAX
        &&& self@[0].len() <= isize::MAX
    }

    proof fn lemma_layout_gives_wf(&self)
        requires
            self.layout_wf(),
        ensures
            self.wf(),
            grid_width(self@) == self.width,
            grid_height(self@) == self.height,
    {
        let w = self.width as int;
        let h = self.height as int;
        assert(w <= w * h && h <= w * h) by (nonlinear_arith)
            requires
                w > 0,
                h > 0,
        ;
    }

    /// An all-dark framebuffer of the reference size, `WIDTH` by `HEIGHT`.
    pub fn new() -> (display: DisplayState)
        ensures
            display.wf(),
            display@ == blank_grid(WIDTH as int, HEIGHT as int),
    {
        let display = DisplayState { width: WIDTH, height: HEIGHT, state: vec![false; 5120] };
        proof {
            display.lemma_layout_gives_wf();
            assert forall|x: int, y: int| 0 <= x < WIDTH && 0 <= y < HEIGHT implies display@[x][y]
                == false by {
                lemma_cell_index(WIDTH as int, HEIGHT as int, x, y);
            }
            assert(display@ =~~= blank_grid(WIDTH as int, HEIGHT as int));
        }
        display
    }

    /// An all-dark framebuffer of the given size, if there is one: both sides
    /// must be non-zero, and the number of pixels must not exceed what a
    /// vector can hold, `isize::MAX`.
    pub fn with_size(width: usize, height: usize) -> (display: Option<DisplayState>)
        ensures
            width > 0 && height > 0 && width * height <= isize::MAX ==> display is Some
                && display->Some_0.wf() && display->Some_0@ == blank_grid(
                width as int,
                height as int,
            ),
            !(width > 0 && height > 0 && width * height <= isize::MAX) ==> display is None,
    {
        if width == 0 || height == 0 {
            return None;
        }
        let pixels: usize = match width.checked_mul(height) {
            Some(pixels) => pixels,
            None => {
                return None;
            },
        };
        if pixels > isize::MAX as usize {
            return None;
        }
        let display = DisplayState { width: width, height: height, state: vec![false; pixels] };
        proof {
            display.lemma_layout_gives_wf();
            assert forall|x: int, y: int| 0 <= x < width && 0 <= y < height implies display@[x][y]
                == false by {
                lemma_cell_index(width as int, height as int, x, y);
            }
            assert(display@ =~~= blank_grid(width as int, height as int));
        }
        Some(display)
    }

    /// Number of columns.
    pub fn width(&self) -> (width: usize)
        requires
            self.wf(),
        ensures
            width == grid_width(self@),
    {
        proof {
            self.lemma_layout_gives_wf();
        }
        self.width
    }

    /// Number of rows.
    pub fn height(&self) -> (height: usize)
        requires
            self.wf(),
        ensures
            height == grid_height(self@),
    {
        proof {
            self.lemma_layout_gives_wf();
        }
        self.height
    }

    /// Sets the pixel at column `x`, row `y`. Coordinates past an edge wrap
    /// around it.
    pub fn set_pixel(&mut self, x: usize, y: usize, pixel_state: bool)
        requires
            old(self).wf(),
        ensures
            final(self).wf(),
            final(self)@ == grid_set(old(self)@, x as int, y as int, pixel_state),
    {
        proof {
            self.lemma_layout_gives_wf();
        }
        let cx: usize = x % self.width;
        let cy: usize = y % self.height;
        proof {
            lemma_cell_index(self.width as int, self.height as int, cx as int, cy as int);
        }
        self.state[cx * self.height + cy] = pixel_state;
        proof {
            self.lemma_layout_gives_wf();
            let w = self.width as int;
            let h = self.height as int;
            let target = grid_set(old(self)@, x as int, y as int, pixel_state);
            assert forall|a: int, b: int| 0 <= a < w && 0 <= b < h implies self@[a][b]
                == target[a][b] by {
                lemma_cell_index(w, h, a, b);
            }
            assert(self@ =~~= target);
        }
    }

    /// The pixel at column `x`, row `y`. Coordinates past an edge wrap around
    /// it.
    pub fn get_pixel(&self, x: usize, y: usize) -> (pixel_state: bool)
        requires
            self.wf(),
        ensures
            pixel_state == grid_get(self@, x as int, y as int),
    {
        proof {
            self.lemma_layout_gives_wf();
        }
        let cx: usize = x % self.width;
        let cy: usize = y % self.height;
        proof {
            lemma_cell_index(self.width as int, self.height as int, cx as int, cy as int);
        }
        self.state[cx * self.height + cy]
    }

    /// Turns every pixel dark. The size stays.
    pub fn clear(&mut self)
        requires
            old(self).wf(),
        ensures
            final(self).wf(),
            final(self)@ == blank_grid(grid_width(old(self)@), grid_height(old(self)@)),
    {
        proof {
            self.lemma_layout_gives_wf();
        }
        let mut i: usize = 0;
        while i < self.state.len()
            invariant
                i <= self.state.len(),
                self.layout_wf(),
                self.width == old(self).width,
                self.height == old(self).height,
                forall|k: int| 0 <= k < i ==> self.state@[k] == false,
            decreases self.state.len() - i,
        {
            self.state[i] = false;
            i = i + 1;
        }
        proof {
            self.lemma_layout_gives_wf();
            let w = self.width as int;
            let h = self.height as int;
            assert forall|a: int, b: int| 0 <= a < w && 0 <= b < h implies self@[a][b]
                == false by {
                lemma_cell_index(w, h, a, b);
            }
            assert(self@ =~~= blank_grid(w, h));
        }
    }
}

} // verus!
