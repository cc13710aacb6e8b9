//! The display surface: a 64x32 grid of pixels that are either set or
//! clear, changed only by clearing it or by XOR-drawing a sprite.
//!
//! The grid is kept row by row: the pixel in column `c` of row `r` is cell
//! `r * 64 + c`. A sprite is drawn from its origin without wrapping or
//! clipping, so a set sprite pixel that passes the right edge falls on the
//! start of the next row. One that would pass the last cell does not fit,
//! and then nothing is drawn.

use vstd::prelude::*;

verus! {

/// Pixels per row.
pub const WIDTH: usize = 64;

/// Rows of the grid.
pub const HEIGHT: usize = 32;

/// Cells of the grid.
pub const CELLS: usize = 2048;

/// Whether pixel `bit` of a sprite row is set; pixel 0 is the leftmost one,
/// the most significant bit of the byte.
pub open spec fn bit_set(byte: u8, bit: u8) -> bool {
    byte & (0x80u8 >> bit) != 0
}

/// The cell of a sprite's top left pixel: the coordinates are taken modulo
/// the width and the height of the grid.
pub open spec fn origin(x: u8, y: u8) -> int {
    (y % 32) * 64 + (x % 64)
}

/// Whether the sprite `rows`, drawn at `(x, y)`, has a set pixel on `cell`.
/// Row `k` of the sprite starts 64 cells after row `k - 1`.
pub open spec fn sprite_covers(x: u8, y: u8, rows: Seq<u8>, cell: int) -> bool {
    let offset = cell - origin(x, y);
    &&& 0 <= offset
    &&& offset / 64 < rows.len()
    &&& offset % 64 < 8
    &&& bit_set(rows[offset / 64], (offset % 64) as u8)
}

/// Whether every set pixel of the sprite falls on a cell of the grid.
pub open spec fn sprite_fits(x: u8, y: u8, rows: Seq<u8>) -> bool {
    forall|cell: int| sprite_covers(x, y, rows, cell) ==> cell < 2048
}

/// The grid after the sprite was drawn on it: the cells under a set sprite
/// pixel are flipped, the others kept.
pub open spec fn drawn(grid: Seq<bool>, x: u8, y: u8, rows: Seq<u8>) -> Seq<bool> {
    Seq::new(2048, |cell: int| grid[cell] != sprite_covers(x, y, rows, cell))
}

/// Whether drawing the sprite clears a pixel that was set.
pub open spec fn collides(grid: Seq<bool>, x: u8, y: u8, rows: Seq<u8>) -> bool {
    exists|cell: int| 0 <= cell < 2048 && grid[cell] && sprite_covers(x, y, rows, cell)
}

/// The grid with every pixel clear.
pub open spec fn blank() -> Seq<bool> {
    Seq::new(2048, |cell: int| false)
}

/// Drawing is its own inverse: a sprite drawn twice at one place leaves
/// every pixel as it was.
pub proof fn lemma_draw_twice(grid: Seq<bool>, x: u8, y: u8, rows: Seq<u8>)
    requires
        grid.len() == 2048,
    ensures
        drawn(drawn(grid, x, y, rows), x, y, rows) == grid,
{
    assert(drawn(drawn(grid, x, y, rows), x, y, rows) =~= grid);
}

/// Whether a sprite pixel comes before pixel `bit` of row `line` in drawing
/// order.
pub open spec fn before(offset: int, line: int, bit: int) -> bool {
    offset / 64 < line || (offset / 64 == line && offset % 64 < bit)
}

/// The 64x32 grid.
#[derive(Clone, Copy, Debug)]
pub struct Display {
    cells: [bool; 2048],
}

impl View for Display {
    type V = Seq<bool>;

    closed spec fn view(&self) -> Seq<bool> {
        self.cells@
    }
}

/// Tells whether every set pixel of the sprite has a cell to fall on.
fn sprite_in_grid(x: u8, y: u8, rows: &[u8]) -> (ok: bool)
    ensures
        ok == sprite_fits(x, y, rows@),
{
    let base: usize = (y % 32) as usize * 64 + (x % 64) as usize;
    let mut line: usize = 0;
    while line < rows.len()
        invariant
            line <= rows.len(),
            base == origin(x, y),
            forall|cell: int|
                sprite_covers(x, y, rows@, cell) && (cell - base) / 64 < line ==> cell < 2048,
        decreases rows.len() - line,
    {
        let byte: u8 = rows[line];
        let mut bit: u8 = 0;
        while bit < 8
            invariant
                bit <= 8,
                line < rows.len(),
                byte == rows@[line as int],
                base == origin(x, y),
                forall|cell: int|
                    sprite_covers(x, y, rows@, cell) && before(cell - base, line as int, bit as int)
                        ==> cell < 2048,
            decreases 8 - bit,
        {
            if byte & (0x80u8 >> bit) != 0 {
                if line >= 32 || base + line * 64 + bit as usize >= 2048 {
                    assert(sprite_covers(x, y, rows@, base + line * 64 + bit));
                    return false;
                }
            }
            bit += 1;
        }
        line += 1;
    }
    true
}

impl Display {
    /// A display with every pixel clear.
    pub fn new() -> (display: Display)
        ensures
            display@ == blank(),
    {
        Display { cells: [false; 2048] }
    }

    /// The grid always has 2048 cells.
    pub proof fn lemma_cells(&self)
        ensures
            self@.len() == 2048,
    {
    }

    /// Clears every pixel.
    pub fn clear(&mut self)
        ensures
            final(self)@ == blank(),
    {
        self.cells = [false; 2048];
    }

    /// Draws a sprite of 8-pixel rows with its top left pixel at column
    /// `x % 64` of row `y % 32`, flipping the pixel under every set sprite
    /// pixel. Returns whether a pixel that was set became clear. Where a set
    /// sprite pixel would fall behind the last cell, nothing is drawn and the
    /// result is `None`.
    pub fn draw_sprite(&mut self, x: u8, y: u8, rows: &[u8]) -> (collision: Option<bool>)
        ensures
            collision is Some <==> sprite_fits(x, y, rows@),
            collision is Some ==> final(self)@ == drawn(old(self)@, x, y, rows@),
            collision is Some ==> collision == Some(collides(old(self)@, x, y, rows@)),
            collision is None ==> final(self)@ == old(self)@,
    {
        if !sprite_in_grid(x, y, rows) {
            return None;
        }
        let base: usize = (y % 32) as usize * 64 + (x % 64) as usize;
        let ghost before_draw = self.cells@;
        let ghost mut witness: int = 0;
        let mut hit: bool = false;
        let mut line: usize = 0;
        while line < rows.len() && line < 32
            invariant
                line <= rows.len(),
                line <= 32,
                base == origin(x, y),
                sprite_fits(x, y, rows@),
                before_draw.len() == 2048,
                forall|cell: int|
                    0 <= cell < 2048 ==> self.cells@[cell] == (before_draw[cell] != (sprite_covers(
                        x,
                        y,
                        rows@,
                        cell,
                    ) && before(cell - base, line as int, 0))),
                hit ==> 0 <= witness < 2048 && before_draw[witness] && sprite_covers(
                    x,
                    y,
                    rows@,
                    witness,
                ),
                !hit ==> forall|cell: int|
                    0 <= cell < 2048 && sprite_covers(x, y, rows@, cell) && before(
                        cell - base,
                        line as int,
                        0,
                    ) ==> !before_draw[cell],
            decreases rows.len() - line,
        {
            let byte: u8 = rows[line];
            let mut bit: u8 = 0;
            while bit < 8
                invariant
                    bit <= 8,
                    line < rows.len(),
                    line < 32,
                    byte == rows@[line as int],
                    base == origin(x, y),
                    sprite_fits(x, y, rows@),
                    before_draw.len() == 2048,
                    forall|cell: int|
                        0 <= cell < 2048 ==> self.cells@[cell] == (before_draw[cell] != (
                        sprite_covers(x, y, rows@, cell) && before(
                            cell - base,
                            line as int,
                            bit as int,
                        ))),
                    hit ==> 0 <= witness < 2048 && before_draw[witness] && sprite_covers(
                        x,
                        y,
                        rows@,
                        witness,
                    ),
                    !hit ==> forall|cell: int|
                        0 <= cell < 2048 && sprite_covers(x, y, rows@, cell) && before(
                            cell - base,
                            line as int,
                            bit as int,
                        ) ==> !before_draw[cell],
                decreases 8 - bit,
            {
                if byte & (0x80u8 >> bit) != 0 {
                    assert(sprite_covers(x, y, rows@, base + line * 64 + bit));
                    let cell: usize = base + line * 64 + bit as usize;
                    if self.cells[cell] {
                        hit = true;
                        proof {
                            witness = cell as int;
                        }
                    }
                    self.cells[cell] = !self.cells[cell];
                }
                bit += 1;
            }
            line += 1;
        }
        assert(self.cells@ =~= drawn(before_draw, x, y, rows@));
        Some(hit)
    }

    /// Whether the pixel in column `column` of row `row` is set; no pixel
    /// outside the grid is.
    pub fn pixel(&self, column: usize, row: usize) -> (on: bool)
        ensures
            on == (column < 64 && row < 32 && self@[row * 64 + column]),
    {
        column < 64 && row < 32 && self.cells[row * 64 + column]
    }

    /// A copy of the grid, row by row, for whoever presents it.
    pub fn current_grid(&self) -> (grid: [bool; 2048])
        ensures
            grid@ == self@,
    {
        self.cells
    }
}

} // verus!
