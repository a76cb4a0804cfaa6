//! Sprite drawing: a sprite is a column of bytes, one byte per row, the
//! leftmost pixel of a row in the byte's highest bit. Drawing XORs the sprite
//! onto the framebuffer pixel by pixel and reports whether a lit pixel went
//! dark.

use vstd::prelude::*;
use vstd::arithmetic::div_mod::{
    lemma_add_mod_noop,
    lemma_add_mod_noop_right,
    lemma_mod_equivalence,
    lemma_small_mod,
};
use crate::display::{grid_height, grid_wf, grid_width};
use crate::game::GameState;

verus! {

/// Whether the pixel in column `column` of a sprite row is lit. Column 0 is
/// the byte's highest bit.
pub open spec fn row_bit(byte: u8, column: u8) -> bool {
    byte & (0x80u8 >> column) != 0
}

/// Whether pixel `k` of the sprite is lit. Pixels are counted row by row,
/// eight to a row, from the leftmost pixel of the first row.
pub open spec fn sprite_bit(sprite: Seq<u8>, k: int) -> bool {
    row_bit(sprite[k / 8], (k % 8) as u8)
}

/// The grid column on which pixel `k` of a sprite drawn at column `x` lands.
pub open spec fn bit_column(width: int, x: int, k: int) -> int {
    (x + k % 8) % width
}

/// The grid row on which pixel `k` of a sprite drawn at row `y` lands.
pub open spec fn bit_row(height: int, y: int, k: int) -> int {
    (y + k / 8) % height
}

/// The grid with the pixel at column `cx`, row `cy` inverted.
pub open spec fn grid_toggle(grid: Seq<Seq<bool>>, cx: int, cy: int) -> Seq<Seq<bool>> {
    grid.update(cx, grid[cx].update(cy, !grid[cx][cy]))
}

/// What a draw leaves behind: the new grid and the collision flag.
pub struct Drawing {
    /// The framebuffer after the draw.
    pub grid: Seq<Seq<bool>>,
    /// Whether some pixel that was lit when its turn came went dark.
    pub collision: bool,
}

/// The effect of the first `k` pixels of a sprite drawn at `(x, y)`, applied
/// in order. A dark sprite pixel changes nothing. A lit one inverts the grid
/// pixel it lands on, and raises the collision flag if that pixel was lit.
pub open spec fn draw_bits(grid: Seq<Seq<bool>>, x: int, y: int, sprite: Seq<u8>, k: nat) -> Drawing
    decreases k,
{
    if k == 0 {
        Drawing { grid: grid, collision: false }
    } else {
        let before = draw_bits(grid, x, y, sprite, (k - 1) as nat);
        if sprite_bit(sprite, k - 1) {
            let cx = bit_column(grid_width(grid), x, k - 1);
            let cy = bit_row(grid_height(grid), y, k - 1);
            Drawing {
                grid: grid_toggle(before.grid, cx, cy),
                collision: before.collision || before.grid[cx][cy],
            }
        } else {
            before
        }
    }
}

/// The effect of drawing the whole sprite at `(x, y)`.
pub open spec fn draw_sprite(grid: Seq<Seq<bool>>, x: int, y: int, sprite: Seq<u8>) -> Drawing {
    draw_bits(grid, x, y, sprite, 8 * sprite.len())
}

/// Drawing keeps the size of the grid.
pub proof fn lemma_draw_keeps_size(grid: Seq<Seq<bool>>, x: int, y: int, sprite: Seq<u8>, k: nat)
    requires
        grid_wf(grid),
    ensures
        grid_wf(draw_bits(grid, x, y, sprite, k).grid),
        grid_width(draw_bits(grid, x, y, sprite, k).grid) == grid_width(grid),
        grid_height(draw_bits(grid, x, y, sprite, k).grid) == grid_height(grid),
    decreases k,
{
    if k > 0 {
        lemma_draw_keeps_size(grid, x, y, sprite, (k - 1) as nat);
        let before = draw_bits(grid, x, y, sprite, (k - 1) as nat).grid;
        let cx = bit_column(grid_width(grid), x, k - 1);
        let cy = bit_row(grid_height(grid), y, k - 1);
        let after = grid_toggle(before, cx, cy);
        assert(0 <= cx < grid_width(grid) && 0 <= cy < grid_height(grid));
        assert forall|a: int| 0 <= a < after.len() implies (#[trigger] after[a]).len()
            == grid_height(grid) by {
            assert(before[a].len() == before[0].len());
        }
    }
}

/// Whether the pixel in column `column` of a sprite row is lit.
fn bit_is_lit(byte: u8, column: u8) -> (lit: bool)
    requires
        column < 8,
    ensures
        lit == row_bit(byte, column),
{
    byte & (0x80u8 >> column) != 0
}

/// Draws the sprite `bytes`, one byte per row, with its top left corner at
/// column `x`, row `y`. Each lit sprite pixel inverts the framebuffer pixel
/// it lands on; coordinates past an edge wrap around it. Returns whether a
/// lit framebuffer pixel went dark.
pub fn display_byte_sprite(
    game: &mut GameState,
    x: usize,
    y: usize,
    bytes: Vec<u8>,
) -> (collision: bool)
    requires
        old(game).wf(),
    ensures
        final(game).wf(),
        final(game)@ == old(game)@.with_display(
            draw_sprite(old(game)@.display, x as int, y as int, bytes@).grid,
        ),
        collision == draw_sprite(old(game)@.display, x as int, y as int, bytes@).collision,
{
    let width: usize = game.width();
    let height: usize = game.height();
    let base_x: usize = x % width;
    let base_y: usize = y % height;
    let ghost start = game@.display;
    let mut collision: bool = false;
    let mut i: usize = 0;
    while i < bytes.len()
        invariant
            i <= bytes.len(),
            game.wf(),
            grid_wf(start),
            start == old(game)@.display,
            width == grid_width(start),
            height == grid_height(start),
            width <= isize::MAX,
            height <= isize::MAX,
            base_x == x % width,
            base_y == y % height,
            game@ == old(game)@.with_display(
                draw_bits(start, x as int, y as int, bytes@, (8 * i) as nat).grid,
            ),
            collision == draw_bits(start, x as int, y as int, bytes@, (8 * i) as nat).collision,
        decreases bytes.len() - i,
    {
        let byte: u8 = bytes[i];
        let row: usize = base_y + i % height;
        let mut j: u8 = 0;
        while j < 8
            invariant
                j <= 8,
                i < bytes.len(),
                byte == bytes@[i as int],
                game.wf(),
                grid_wf(start),
                width == grid_width(start),
                height == grid_height(start),
                width <= isize::MAX,
                height <= isize::MAX,
                base_x == x % width,
                row == y % height + i % height,
                game@ == old(game)@.with_display(
                    draw_bits(start, x as int, y as int, bytes@, (8 * i + j) as nat).grid,
                ),
                collision == draw_bits(
                    start,
                    x as int,
                    y as int,
                    bytes@,
                    (8 * i + j) as nat,
                ).collision,
            decreases 8 - j,
        {
            let ghost k: int = 8 * i + j;
            let ghost before = draw_bits(start, x as int, y as int, bytes@, k as nat);
            proof {
                lemma_draw_keeps_size(start, x as int, y as int, bytes@, k as nat);
                lemma_add_mod_noop_right(j as int, x as int, width as int);
                lemma_add_mod_noop(y as int, i as int, height as int);
                assert(k / 8 == i && k % 8 == j);
                assert((base_x + j) % (width as int) == bit_column(width as int, x as int, k));
                assert((row as int) % (height as int) == bit_row(height as int, y as int, k));
                assert(sprite_bit(bytes@, k) == row_bit(byte, j));
            }
            if bit_is_lit(byte, j) {
                let column: usize = base_x + j as usize;
                let lit: bool = game.get_pixel(column, row);
                if lit {
                    collision = true;
                }
                game.set_pixel(column, row, !lit);
            }
            j = j + 1;
        }
        i = i + 1;
    }
    collision
}

/// Whether pixel `k` of the sprite is lit and lands on column `cx`, row `cy`
/// of a grid of the given size when the sprite is drawn at `(x, y)`.
pub open spec fn lands_on(
    width: int,
    height: int,
    x: int,
    y: int,
    sprite: Seq<u8>,
    k: int,
    cx: int,
    cy: int,
) -> bool {
    &&& sprite_bit(sprite, k)
    &&& bit_column(width, x, k) == cx
    &&& bit_row(height, y, k) == cy
}

/// Whether one of the first `n` pixels of the sprite is lit and lands on
/// column `cx`, row `cy`.
pub open spec fn touched(
    width: int,
    height: int,
    x: int,
    y: int,
    sprite: Seq<u8>,
    n: int,
    cx: int,
    cy: int,
) -> bool {
    exists|k: int| 0 <= k < n && #[trigger] lands_on(width, height, x, y, sprite, k, cx, cy)
}

/// Whether two different lit pixels among the first `n` land on one and the
/// same cell. On a grid at least eight pixels wide and as high as the sprite
/// this never happens.
pub open spec fn overlaps(
    width: int,
    height: int,
    x: int,
    y: int,
    sprite: Seq<u8>,
    n: int,
) -> bool {
    exists|j: int, k: int, cx: int, cy: int|
        0 <= j < k < n && #[trigger] lands_on(width, height, x, y, sprite, j, cx, cy)
            && #[trigger] lands_on(width, height, x, y, sprite, k, cx, cy)
}

/// Whether one of the first `n` pixels of the sprite is lit and lands on a
/// cell that is lit (`lit` true) or dark (`lit` false) in `grid`.
pub open spec fn hits(
    grid: Seq<Seq<bool>>,
    x: int,
    y: int,
    sprite: Seq<u8>,
    n: int,
    lit: bool,
) -> bool {
    exists|k: int, cx: int, cy: int|
        0 <= k < n && #[trigger] lands_on(
            grid_width(grid),
            grid_height(grid),
            x,
            y,
            sprite,
            k,
            cx,
            cy,
        ) && grid[cx][cy] == lit
}

/// Whether the first `n` pixels of the sprite invert the cell at column `cx`,
/// row `cy` an odd number of times.
pub open spec fn inverted(
    width: int,
    height: int,
    x: int,
    y: int,
    sprite: Seq<u8>,
    n: nat,
    cx: int,
    cy: int,
) -> bool
    decreases n,
{
    if n == 0 {
        false
    } else {
        inverted(width, height, x, y, sprite, (n - 1) as nat, cx, cy) != lands_on(
            width,
            height,
            x,
            y,
            sprite,
            n - 1,
            cx,
            cy,
        )
    }
}

/// A pixel lands inside the grid.
proof fn lemma_lands_inside(width: int, height: int, x: int, y: int, k: int)
    requires
        width > 0,
        height > 0,
    ensures
        0 <= bit_column(width, x, k) < width,
        0 <= bit_row(height, y, k) < height,
{
}

/// After the first `n` pixels a cell holds what it held before, inverted if
/// it was inverted an odd number of times.
proof fn lemma_cell_after(
    grid: Seq<Seq<bool>>,
    x: int,
    y: int,
    sprite: Seq<u8>,
    n: nat,
    cx: int,
    cy: int,
)
    requires
        grid_wf(grid),
        0 <= cx < grid_width(grid),
        0 <= cy < grid_height(grid),
    ensures
        draw_bits(grid, x, y, sprite, n).grid[cx][cy] == (grid[cx][cy] != inverted(
            grid_width(grid),
            grid_height(grid),
            x,
            y,
            sprite,
            n,
            cx,
            cy,
        )),
    decreases n,
{
    if n > 0 {
        let m = (n - 1) as nat;
        lemma_cell_after(grid, x, y, sprite, m, cx, cy);
        lemma_draw_keeps_size(grid, x, y, sprite, m);
        lemma_lands_inside(grid_width(grid), grid_height(grid), x, y, n - 1);
        let before = draw_bits(grid, x, y, sprite, m).grid;
        assert(before[cx].len() == before[0].len());
    }
}

/// A cell that the first `n` pixels inverted an odd number of times was
/// touched by one of them.
proof fn lemma_inverted_is_touched(
    width: int,
    height: int,
    x: int,
    y: int,
    sprite: Seq<u8>,
    n: nat,
    cx: int,
    cy: int,
)
    requires
        inverted(width, height, x, y, sprite, n, cx, cy),
    ensures
        touched(width, height, x, y, sprite, n as int, cx, cy),
    decreases n,
{
    if n > 0 {
        let m = (n - 1) as nat;
        if lands_on(width, height, x, y, sprite, n - 1, cx, cy) {
        } else {
            lemma_inverted_is_touched(width, height, x, y, sprite, m, cx, cy);
            let k = choose|k: int|
                0 <= k < m && #[trigger] lands_on(width, height, x, y, sprite, k, cx, cy);
            assert(lands_on(width, height, x, y, sprite, k, cx, cy));
        }
    }
}

/// Where no two lit pixels share a cell, a cell that a lit pixel lands on is
/// inverted exactly once.
proof fn lemma_touched_once_is_inverted(
    width: int,
    height: int,
    x: int,
    y: int,
    sprite: Seq<u8>,
    n: nat,
    k: int,
    cx: int,
    cy: int,
)
    requires
        0 <= k < n,
        lands_on(width, height, x, y, sprite, k, cx, cy),
        !overlaps(width, height, x, y, sprite, n as int),
    ensures
        inverted(width, height, x, y, sprite, n, cx, cy),
    decreases n,
{
    let m = (n - 1) as nat;
    if k == n - 1 {
        if inverted(width, height, x, y, sprite, m, cx, cy) {
            lemma_inverted_is_touched(width, height, x, y, sprite, m, cx, cy);
            let j = choose|j: int|
                0 <= j < m && #[trigger] lands_on(width, height, x, y, sprite, j, cx, cy);
            assert(lands_on(width, height, x, y, sprite, j, cx, cy) && lands_on(
                width,
                height,
                x,
                y,
                sprite,
                k,
                cx,
                cy,
            ));
        }
    } else {
        if overlaps(width, height, x, y, sprite, m as int) {
            let (j, i, ax, ay) = choose|j: int, i: int, ax: int, ay: int|
                0 <= j < i < m && #[trigger] lands_on(width, height, x, y, sprite, j, ax, ay)
                    && #[trigger] lands_on(width, height, x, y, sprite, i, ax, ay);
            assert(lands_on(width, height, x, y, sprite, j, ax, ay) && lands_on(
                width,
                height,
                x,
                y,
                sprite,
                i,
                ax,
                ay,
            ));
        }
        lemma_touched_once_is_inverted(width, height, x, y, sprite, m, k, cx, cy);
        if lands_on(width, height, x, y, sprite, n - 1, cx, cy) {
            assert(lands_on(width, height, x, y, sprite, k, cx, cy) && lands_on(
                width,
                height,
                x,
                y,
                sprite,
                n - 1,
                cx,
                cy,
            ));
        }
    }
}

/// A cell that was lit at the start, or that one of the first `n` pixels
/// touched, and that is dark after them, went dark under one of them: the
/// collision flag is up.
proof fn lemma_dark_after_means_collision(
    grid: Seq<Seq<bool>>,
    x: int,
    y: int,
    sprite: Seq<u8>,
    n: nat,
    cx: int,
    cy: int,
)
    requires
        grid_wf(grid),
        0 <= cx < grid_width(grid),
        0 <= cy < grid_height(grid),
        grid[cx][cy] || touched(
            grid_width(grid),
            grid_height(grid),
            x,
            y,
            sprite,
            n as int,
            cx,
            cy,
        ),
        !draw_bits(grid, x, y, sprite, n).grid[cx][cy],
    ensures
        draw_bits(grid, x, y, sprite, n).collision,
    decreases n,
{
    let width = grid_width(grid);
    let height = grid_height(grid);
    if n > 0 {
        let m = (n - 1) as nat;
        lemma_draw_keeps_size(grid, x, y, sprite, m);
        lemma_lands_inside(width, height, x, y, n - 1);
        let before = draw_bits(grid, x, y, sprite, m).grid;
        assert(before[cx].len() == before[0].len());
        if lands_on(width, height, x, y, sprite, n - 1, cx, cy) {
        } else {
            if !grid[cx][cy] {
                let k = choose|k: int|
                    0 <= k < n && #[trigger] lands_on(width, height, x, y, sprite, k, cx, cy);
                assert(lands_on(width, height, x, y, sprite, k, cx, cy));
                assert(touched(width, height, x, y, sprite, m as int, cx, cy));
            }
            lemma_dark_after_means_collision(grid, x, y, sprite, m, cx, cy);
        }
    }
}

/// When the collision flag is up after the first `n` pixels: exactly when one
/// of them is lit and lands on a cell that was lit at the start, or two of
/// them are lit and land on the same cell.
proof fn lemma_collision_after(grid: Seq<Seq<bool>>, x: int, y: int, sprite: Seq<u8>, n: nat)
    requires
        grid_wf(grid),
    ensures
        draw_bits(grid, x, y, sprite, n).collision <==> hits(grid, x, y, sprite, n as int, true)
            || overlaps(grid_width(grid), grid_height(grid), x, y, sprite, n as int),
    decreases n,
{
    let width = grid_width(grid);
    let height = grid_height(grid);
    if n > 0 {
        let m = (n - 1) as nat;
        lemma_collision_after(grid, x, y, sprite, m);
        lemma_draw_keeps_size(grid, x, y, sprite, m);
        lemma_lands_inside(width, height, x, y, n - 1);
        let before = draw_bits(grid, x, y, sprite, m);
        let cx = bit_column(width, x, n - 1);
        let cy = bit_row(height, y, n - 1);
        let last = lands_on(width, height, x, y, sprite, n - 1, cx, cy);
        // What held of the first `n - 1` pixels holds of the first `n`.
        if hits(grid, x, y, sprite, m as int, true) {
            let (k, ax, ay) = choose|k: int, ax: int, ay: int|
                0 <= k < m && #[trigger] lands_on(width, height, x, y, sprite, k, ax, ay)
                    && grid[ax][ay] == true;
            assert(lands_on(width, height, x, y, sprite, k, ax, ay));
            assert(hits(grid, x, y, sprite, n as int, true));
        }
        if overlaps(width, height, x, y, sprite, m as int) {
            let (j, k, ax, ay) = choose|j: int, k: int, ax: int, ay: int|
                0 <= j < k < m && #[trigger] lands_on(width, height, x, y, sprite, j, ax, ay)
                    && #[trigger] lands_on(width, height, x, y, sprite, k, ax, ay);
            assert(lands_on(width, height, x, y, sprite, j, ax, ay) && lands_on(
                width,
                height,
                x,
                y,
                sprite,
                k,
                ax,
                ay,
            ));
            assert(overlaps(width, height, x, y, sprite, n as int));
        }
        // The last pixel raises the flag on a lit cell: lit from the start,
        // or lit by an earlier pixel.
        if last && before.grid[cx][cy] {
            lemma_cell_after(grid, x, y, sprite, m, cx, cy);
            if grid[cx][cy] {
                assert(hits(grid, x, y, sprite, n as int, true));
            } else {
                lemma_inverted_is_touched(width, height, x, y, sprite, m, cx, cy);
                let j = choose|j: int|
                    0 <= j < m && #[trigger] lands_on(width, height, x, y, sprite, j, cx, cy);
                assert(lands_on(width, height, x, y, sprite, j, cx, cy) && lands_on(
                    width,
                    height,
                    x,
                    y,
                    sprite,
                    n - 1,
                    cx,
                    cy,
                ));
                assert(overlaps(width, height, x, y, sprite, n as int));
            }
        }
        // A witness that involves the last pixel shows a raised flag.
        if hits(grid, x, y, sprite, n as int, true) && !hits(grid, x, y, sprite, m as int, true) {
            let (k, ax, ay) = choose|k: int, ax: int, ay: int|
                0 <= k < n && #[trigger] lands_on(width, height, x, y, sprite, k, ax, ay)
                    && grid[ax][ay] == true;
            assert(lands_on(width, height, x, y, sprite, k, ax, ay));
            assert(k == n - 1);
            if !before.grid[cx][cy] {
                lemma_dark_after_means_collision(grid, x, y, sprite, m, cx, cy);
            }
        }
        if overlaps(width, height, x, y, sprite, n as int) && !overlaps(
            width,
            height,
            x,
            y,
            sprite,
            m as int,
        ) {
            let (j, k, ax, ay) = choose|j: int, k: int, ax: int, ay: int|
                0 <= j < k < n && #[trigger] lands_on(width, height, x, y, sprite, j, ax, ay)
                    && #[trigger] lands_on(width, height, x, y, sprite, k, ax, ay);
            assert(lands_on(width, height, x, y, sprite, j, ax, ay) && lands_on(
                width,
                height,
                x,
                y,
                sprite,
                k,
                ax,
                ay,
            ));
            assert(k == n - 1);
            if !before.grid[cx][cy] {
                assert(touched(width, height, x, y, sprite, m as int, cx, cy));
                lemma_dark_after_means_collision(grid, x, y, sprite, m, cx, cy);
            }
        }
    } else {
        assert(!hits(grid, x, y, sprite, 0, true));
        assert(!overlaps(width, height, x, y, sprite, 0));
    }
}

/// Drawing is its own inverse. Drawing the same sprite a second time at the
/// same place gives back the framebuffer as it was before the first draw,
/// pixel for pixel.
pub proof fn lemma_draw_twice_restores(grid: Seq<Seq<bool>>, x: int, y: int, sprite: Seq<u8>)
    requires
        grid_wf(grid),
    ensures
        draw_sprite(draw_sprite(grid, x, y, sprite).grid, x, y, sprite).grid == grid,
{
    let n = 8 * sprite.len();
    let once = draw_sprite(grid, x, y, sprite).grid;
    let twice = draw_sprite(once, x, y, sprite).grid;
    lemma_draw_keeps_size(grid, x, y, sprite, n);
    lemma_draw_keeps_size(once, x, y, sprite, n);
    assert forall|cx: int, cy: int|
        0 <= cx < grid_width(grid) && 0 <= cy < grid_height(grid) implies twice[cx][cy]
        == grid[cx][cy] by {
        lemma_cell_after(grid, x, y, sprite, n, cx, cy);
        lemma_cell_after(once, x, y, sprite, n, cx, cy);
    }
    assert forall|cx: int| 0 <= cx < grid_width(grid) implies twice[cx] =~= grid[cx] by {
        assert(twice[cx].len() == twice[0].len());
        assert(grid[cx].len() == grid[0].len());
    }
    assert(twice =~= grid);
}

/// When a draw reports a collision: exactly when a lit sprite pixel lands on
/// a pixel that was lit before the draw, or two lit sprite pixels land on the
/// same pixel.
pub proof fn lemma_draw_collision(grid: Seq<Seq<bool>>, x: int, y: int, sprite: Seq<u8>)
    requires
        grid_wf(grid),
    ensures
        draw_sprite(grid, x, y, sprite).collision <==> hits(
            grid,
            x,
            y,
            sprite,
            8 * (sprite.len() as int),
            true,
        ) || overlaps(grid_width(grid), grid_height(grid), x, y, sprite, 8 * (sprite.len() as int)),
{
    lemma_collision_after(grid, x, y, sprite, 8 * sprite.len());
}

/// Drawing once on an empty region reports no collision. The region is empty
/// when every pixel that a lit sprite pixel lands on is dark. The sprite must
/// not fold onto itself, as it can only on a grid narrower than a sprite row
/// or lower than the sprite.
pub proof fn lemma_draw_on_empty_region(grid: Seq<Seq<bool>>, x: int, y: int, sprite: Seq<u8>)
    requires
        grid_wf(grid),
        !hits(grid, x, y, sprite, 8 * (sprite.len() as int), true),
        !overlaps(grid_width(grid), grid_height(grid), x, y, sprite, 8 * (sprite.len() as int)),
    ensures
        !draw_sprite(grid, x, y, sprite).collision,
{
    lemma_collision_after(grid, x, y, sprite, 8 * sprite.len());
}

/// When the second of two identical draws reports a collision: exactly when a
/// lit sprite pixel lands on a pixel that was dark before the first draw, or
/// two lit sprite pixels land on the same pixel. So it does whenever the
/// sprite shows anything on a region that was not lit all over.
pub proof fn lemma_second_draw_collision(grid: Seq<Seq<bool>>, x: int, y: int, sprite: Seq<u8>)
    requires
        grid_wf(grid),
    ensures
        draw_sprite(draw_sprite(grid, x, y, sprite).grid, x, y, sprite).collision <==> hits(
            grid,
            x,
            y,
            sprite,
            8 * (sprite.len() as int),
            false,
        ) || overlaps(grid_width(grid), grid_height(grid), x, y, sprite, 8 * (sprite.len() as int)),
{
    let n = 8 * sprite.len();
    let width = grid_width(grid);
    let height = grid_height(grid);
    let once = draw_sprite(grid, x, y, sprite).grid;
    lemma_draw_keeps_size(grid, x, y, sprite, n);
    lemma_collision_after(once, x, y, sprite, n);
    if !overlaps(width, height, x, y, sprite, n as int) {
        if hits(once, x, y, sprite, n as int, true) {
            let (k, cx, cy) = choose|k: int, cx: int, cy: int|
                0 <= k < n && #[trigger] lands_on(width, height, x, y, sprite, k, cx, cy)
                    && once[cx][cy] == true;
            lemma_lands_inside(width, height, x, y, k);
            lemma_touched_once_is_inverted(width, height, x, y, sprite, n, k, cx, cy);
            lemma_cell_after(grid, x, y, sprite, n, cx, cy);
            assert(lands_on(width, height, x, y, sprite, k, cx, cy) && grid[cx][cy] == false);
        }
        if hits(grid, x, y, sprite, n as int, false) {
            let (k, cx, cy) = choose|k: int, cx: int, cy: int|
                0 <= k < n && #[trigger] lands_on(width, height, x, y, sprite, k, cx, cy)
                    && grid[cx][cy] == false;
            lemma_lands_inside(width, height, x, y, k);
            lemma_touched_once_is_inverted(width, height, x, y, sprite, n, k, cx, cy);
            lemma_cell_after(grid, x, y, sprite, n, cx, cy);
            assert(lands_on(width, height, x, y, sprite, k, cx, cy) && once[cx][cy] == true);
        }
    }
}

/// Two offsets below the modulus that lead to the same residue are the same.
proof fn lemma_same_residue(base: int, p: int, q: int, m: int)
    requires
        0 <= p < m,
        0 <= q < m,
        (base + p) % m == (base + q) % m,
    ensures
        p == q,
{
    if p >= q {
        lemma_mod_equivalence(base + p, base + q, m);
        lemma_small_mod((p - q) as nat, m as nat);
    } else {
        lemma_mod_equivalence(base + q, base + p, m);
        lemma_small_mod((q - p) as nat, m as nat);
    }
}

/// On a grid at least eight pixels wide and at least as high as the sprite,
/// no two pixels of the sprite land on the same cell.
pub proof fn lemma_roomy_grid_has_no_overlap(
    width: int,
    height: int,
    x: int,
    y: int,
    sprite: Seq<u8>,
)
    requires
        width >= 8,
        height >= sprite.len(),
        height > 0,
    ensures
        !overlaps(width, height, x, y, sprite, 8 * (sprite.len() as int)),
{
    let n = 8 * sprite.len();
    if overlaps(width, height, x, y, sprite, n as int) {
        let (j, k, cx, cy) = choose|j: int, k: int, cx: int, cy: int|
            0 <= j < k < n && #[trigger] lands_on(width, height, x, y, sprite, j, cx, cy)
                && #[trigger] lands_on(width, height, x, y, sprite, k, cx, cy);
        lemma_same_residue(x, j % 8, k % 8, width);
        lemma_same_residue(y, j / 8, k / 8, height);
    }
}

} // verus!
