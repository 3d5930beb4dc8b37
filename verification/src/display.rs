//! The 64 x 32 monochrome framebuffer and its XOR sprite blit.

use vstd::prelude::*;

verus! {

/// Columns of the framebuffer.
pub const DISPLAY_WIDTH: usize = 64;

/// Rows of the framebuffer.
pub const DISPLAY_HEIGHT: usize = 32;

/// Margin around the grid when it is presented, in display units.
pub const DISPLAY_FRAME: usize = 5;

/// Distance between the origins of two neighbouring cells.
pub const PIXEL_SIZE: usize = 10;

/// Gap left between two neighbouring cells.
pub const PIXEL_GAP: usize = 1;

/// Width of the presented picture, frame included.
pub const WIDTH: usize = PIXEL_SIZE * DISPLAY_WIDTH + DISPLAY_FRAME * 2;

/// Height of the presented picture, frame included.
pub const HEIGHT: usize = PIXEL_SIZE * DISPLAY_HEIGHT + DISPLAY_FRAME * 2;

/// Side of the square that presents one lit cell.
pub const CELL_SIDE: usize = PIXEL_SIZE - PIXEL_GAP;

/// Longest sprite: one byte per row.
pub const MAX_SPRITE_ROWS: usize = 15;

/// Bit `col` of a sprite row, counted from the left: column 0 is the most
/// significant bit.
pub open spec fn bit_of(row: u8, col: int) -> bool {
    (row >> ((7 - col) as u8)) % 2 == 1
}

/// Row of the sprite that lands on framebuffer row `py` when the sprite's
/// origin is at row `y`; the sprite has that row only if this is below its
/// length. The origin may lie beyond the grid, so the distance is taken
/// modulo 32 after adding 256, a multiple of 32 that no origin exceeds.
pub open spec fn sprite_row(y: int, py: int) -> int {
    (py + 256 - y) % 32
}

/// Column of the sprite that lands on framebuffer column `px` when the
/// sprite's origin is at column `x`; below 8 where the sprite reaches.
/// Taken modulo 64 after adding 256, a multiple of 64.
pub open spec fn sprite_col(x: int, px: int) -> int {
    (px + 256 - x) % 64
}

/// Whether the sprite drawn at `(x, y)` has a set bit on the cell
/// `(px, py)`, rows and columns wrapping round the edges.
pub open spec fn sprite_covers(x: int, y: int, sprite: Seq<u8>, px: int, py: int) -> bool {
    let row = sprite_row(y, py);
    let col = sprite_col(x, px);
    row < sprite.len() && col < 8 && bit_of(sprite[row], col)
}

/// The same, but only for the part of the sprite that comes before column
/// `c` of row `r` in drawing order.
pub open spec fn covers_before(
    x: int,
    y: int,
    sprite: Seq<u8>,
    px: int,
    py: int,
    r: int,
    c: int,
) -> bool {
    let row = sprite_row(y, py);
    let col = sprite_col(x, px);
    sprite_covers(x, y, sprite, px, py) && (row < r || (row == r && col < c))
}

/// A grid has 32 rows of 64 cells.
pub open spec fn is_grid(grid: Seq<Seq<bool>>) -> bool {
    grid.len() == 32 && forall|py: int| 0 <= py < 32 ==> (#[trigger] grid[py]).len() == 64
}

/// The grid with every cell dark.
pub open spec fn blank_grid() -> Seq<Seq<bool>> {
    Seq::new(32, |py: int| Seq::new(64, |px: int| false))
}

/// The grid after the sprite was drawn at `(x, y)`: each cell under a set
/// bit is flipped, every other cell is kept.
pub open spec fn blit(grid: Seq<Seq<bool>>, x: int, y: int, sprite: Seq<u8>) -> Seq<Seq<bool>> {
    Seq::new(
        32,
        |py: int| Seq::new(64, |px: int| grid[py][px] != sprite_covers(x, y, sprite, px, py)),
    )
}

/// Whether drawing the sprite at `(x, y)` hits a cell that is lit.
pub open spec fn blit_collides(grid: Seq<Seq<bool>>, x: int, y: int, sprite: Seq<u8>) -> bool {
    exists|px: int, py: int|
        0 <= px < 64 && 0 <= py < 32 && grid[py][px] && #[trigger] sprite_covers(
            x,
            y,
            sprite,
            px,
            py,
        )
}

/// Top left corner of the square that presents the cell in column `x` of
/// row `y`: one `PIXEL_SIZE` per cell, inside the frame.
pub fn cell_origin(x: usize, y: usize) -> (origin: (usize, usize))
    requires
        x < DISPLAY_WIDTH,
        y < DISPLAY_HEIGHT,
    ensures
        origin.0 == x * 10 + 5,
        origin.1 == y * 10 + 5,
        origin.0 + CELL_SIDE <= WIDTH - DISPLAY_FRAME,
        origin.1 + CELL_SIDE <= HEIGHT - DISPLAY_FRAME,
{
    (x * PIXEL_SIZE + DISPLAY_FRAME, y * PIXEL_SIZE + DISPLAY_FRAME)
}

pub struct Display {
    at: [[bool; 64]; 32],
}

impl View for Display {
    type V = Seq<Seq<bool>>;

    closed spec fn view(&self) -> Seq<Seq<bool>> {
        Seq::new(32, |py: int| self.at@[py]@)
    }
}

impl Display {
    /// Every framebuffer is a grid of 32 rows of 64 cells.
    pub proof fn lemma_is_grid(&self)
        ensures
            is_grid(self@),
    {
    }

    /// A framebuffer with every cell dark.
    pub fn new() -> (display: Display)
        ensures
            display@ == blank_grid(),
    {
        let display = Display { at: [[false; 64]; 32] };
        assert(display@ =~~= blank_grid());
        display
    }

    /// Darkens every cell.
    pub fn clear(&mut self)
        ensures
            final(self)@ == blank_grid(),
    {
        self.at = [[false; 64]; 32];
        assert(self@ =~~= blank_grid());
    }

    /// Whether the cell in column `x` of row `y` is lit.
    pub fn pixel(&self, x: usize, y: usize) -> (lit: bool)
        requires
            x < DISPLAY_WIDTH,
            y < DISPLAY_HEIGHT,
        ensures
            lit == self@[y as int][x as int],
    {
        self.at[y][x]
    }

    /// Draws `sprite` with its top left corner at `(x, y)`, flipping the
    /// cells under its set bits, and tells whether a lit cell was hit.
    pub fn draw_sprite(&mut self, x: u8, y: u8, sprite: &[u8]) -> (collision: bool)
        requires
            sprite@.len() <= MAX_SPRITE_ROWS,
        ensures
            final(self)@ == blit(old(self)@, x as int, y as int, sprite@),
            collision == blit_collides(old(self)@, x as int, y as int, sprite@),
    {
        let mut collision = false;
        let ghost before = self@;
        let ghost mut hit: (int, int) = (0, 0);
        let mut offset_y: usize = 0;
        while offset_y < sprite.len()
            invariant
                offset_y <= sprite@.len() <= 15,
                is_grid(before),
                forall|px: int, py: int|
                    0 <= px < 64 && 0 <= py < 32 ==> self@[py][px] == (before[py][px]
                        != #[trigger] covers_before(
                        x as int,
                        y as int,
                        sprite@,
                        px,
                        py,
                        offset_y as int,
                        0,
                    )),
                collision ==> 0 <= hit.0 < 64 && 0 <= hit.1 < 32 && before[hit.1][hit.0]
                    && sprite_covers(x as int, y as int, sprite@, hit.0, hit.1),
                !collision ==> forall|px: int, py: int|
                    0 <= px < 64 && 0 <= py < 32 ==> !(before[py][px] && #[trigger] covers_before(
                        x as int,
                        y as int,
                        sprite@,
                        px,
                        py,
                        offset_y as int,
                        0,
                    )),
            decreases sprite@.len() - offset_y,
        {
            let line: u8 = sprite[offset_y];
            let wrapped_y: usize = (y as usize + offset_y) % DISPLAY_HEIGHT;
            let mut offset_x: u8 = 0;
            while offset_x < 8
                invariant
                    offset_x <= 8,
                    offset_y < sprite@.len() <= 15,
                    line == sprite@[offset_y as int],
                    wrapped_y == (y + offset_y) % 32,
                    is_grid(before),
                    forall|px: int, py: int|
                        0 <= px < 64 && 0 <= py < 32 ==> self@[py][px] == (before[py][px]
                            != #[trigger] covers_before(
                            x as int,
                            y as int,
                            sprite@,
                            px,
                            py,
                            offset_y as int,
                            offset_x as int,
                        )),
                    collision ==> 0 <= hit.0 < 64 && 0 <= hit.1 < 32 && before[hit.1][hit.0]
                        && sprite_covers(x as int, y as int, sprite@, hit.0, hit.1),
                    !collision ==> forall|px: int, py: int|
                        0 <= px < 64 && 0 <= py < 32 ==> !(before[py][px]
                            && #[trigger] covers_before(
                            x as int,
                            y as int,
                            sprite@,
                            px,
                            py,
                            offset_y as int,
                            offset_x as int,
                        )),
                decreases 8 - offset_x,
            {
                let wrapped_x: usize = (x as usize + offset_x as usize) % DISPLAY_WIDTH;
                let old_cell: bool = self.at[wrapped_y][wrapped_x];
                let new_cell: bool = (line >> (7 - offset_x)) % 2 == 1;
                let ghost previous = self@;
                self.at[wrapped_y][wrapped_x] = old_cell ^ new_cell;
                proof {
                    assert(sprite_row(y as int, wrapped_y as int) == offset_y);
                    assert(sprite_col(x as int, wrapped_x as int) == offset_x);
                    assert(new_cell == bit_of(line, offset_x as int));
                    assert(!covers_before(
                        x as int,
                        y as int,
                        sprite@,
                        wrapped_x as int,
                        wrapped_y as int,
                        offset_y as int,
                        offset_x as int,
                    ));
                    assert(old_cell == before[wrapped_y as int][wrapped_x as int]);
                    assert forall|px: int, py: int| 0 <= px < 64 && 0 <= py < 32 implies self@[py][px]
                        == (before[py][px] != #[trigger] covers_before(
                        x as int,
                        y as int,
                        sprite@,
                        px,
                        py,
                        offset_y as int,
                        offset_x + 1,
                    )) by {
                        let earlier = covers_before(
                            x as int,
                            y as int,
                            sprite@,
                            px,
                            py,
                            offset_y as int,
                            offset_x as int,
                        );
                        assert(previous[py][px] == (before[py][px] != earlier));
                        if px == wrapped_x && py == wrapped_y {
                            assert(self@[py][px] == (old_cell ^ new_cell));
                        } else {
                            assert(self@[py][px] == previous[py][px]);
                            assert(!(sprite_row(y as int, py) == offset_y && sprite_col(
                                x as int,
                                px,
                            ) == offset_x));
                        }
                    }
                    if old_cell && new_cell && !collision {
                        hit = (wrapped_x as int, wrapped_y as int);
                    }
                    if !(collision || (old_cell && new_cell)) {
                        assert forall|px: int, py: int|
                            0 <= px < 64 && 0 <= py < 32 implies !(before[py][px]
                            && #[trigger] covers_before(
                            x as int,
                            y as int,
                            sprite@,
                            px,
                            py,
                            offset_y as int,
                            offset_x + 1,
                        )) by {
                            let earlier = covers_before(
                                x as int,
                                y as int,
                                sprite@,
                                px,
                                py,
                                offset_y as int,
                                offset_x as int,
                            );
                            assert(!(before[py][px] && earlier));
                            if px == wrapped_x && py == wrapped_y {
                            } else {
                                assert(!(sprite_row(y as int, py) == offset_y && sprite_col(
                                    x as int,
                                    px,
                                ) == offset_x));
                            }
                        }
                    }
                }
                if old_cell && new_cell {
                    collision = true;
                }
                offset_x += 1;
            }
            proof {
                assert forall|px: int, py: int| 0 <= px < 64 && 0 <= py < 32 implies (covers_before(
                    x as int,
                    y as int,
                    sprite@,
                    px,
                    py,
                    offset_y as int,
                    8,
                ) == #[trigger] covers_before(
                    x as int,
                    y as int,
                    sprite@,
                    px,
                    py,
                    offset_y + 1,
                    0,
                )) by {}
            }
            offset_y += 1;
        }
        proof {
            assert forall|px: int, py: int| 0 <= px < 64 && 0 <= py < 32 implies (covers_before(
                x as int,
                y as int,
                sprite@,
                px,
                py,
                offset_y as int,
                0,
            ) == #[trigger] sprite_covers(x as int, y as int, sprite@, px, py)) by {}
            assert(self@ =~~= blit(before, x as int, y as int, sprite@));
        }
        collision
    }
}

/// Drawing one sprite twice at one origin gives the grid back, and the
/// second draw reports a collision exactly when the first one lit a cell,
/// that is, when the sprite has a set bit on a cell that was dark.
pub proof fn lemma_draw_twice(grid: Seq<Seq<bool>>, x: u8, y: u8, sprite: Seq<u8>)
    requires
        is_grid(grid),
    ensures
        blit(blit(grid, x as int, y as int, sprite), x as int, y as int, sprite) == grid,
        blit_collides(blit(grid, x as int, y as int, sprite), x as int, y as int, sprite) <==> (
        exists|px: int, py: int|
            0 <= px < 64 && 0 <= py < 32 && !grid[py][px] && #[trigger] sprite_covers(
                x as int,
                y as int,
                sprite,
                px,
                py,
            )),
{
    let once = blit(grid, x as int, y as int, sprite);
    let twice = blit(once, x as int, y as int, sprite);
    assert(twice =~~= grid);
    if blit_collides(once, x as int, y as int, sprite) {
        let (px, py) = choose|px: int, py: int|
            0 <= px < 64 && 0 <= py < 32 && once[py][px] && #[trigger] sprite_covers(
                x as int,
                y as int,
                sprite,
                px,
                py,
            );
        assert(!grid[py][px] && sprite_covers(x as int, y as int, sprite, px, py));
    }
    if exists|px: int, py: int|
        0 <= px < 64 && 0 <= py < 32 && !grid[py][px] && #[trigger] sprite_covers(
            x as int,
            y as int,
            sprite,
            px,
            py,
        ) {
        let (px, py) = choose|px: int, py: int|
            0 <= px < 64 && 0 <= py < 32 && !grid[py][px] && #[trigger] sprite_covers(
                x as int,
                y as int,
                sprite,
                px,
                py,
            );
        assert(once[py][px] && sprite_covers(x as int, y as int, sprite, px, py));
    }
}

/// Bit `c` of row `r` of a sprite drawn at `(x, y)` lands on the cell in
/// column `(x + c) mod 64` of row `(y + r) mod 32`, which is flipped
/// exactly if the bit is set.
pub proof fn lemma_sprite_wraps(grid: Seq<Seq<bool>>, x: u8, y: u8, sprite: Seq<u8>, r: int, c: int)
    requires
        is_grid(grid),
        sprite.len() <= 32,
        0 <= r < sprite.len(),
        0 <= c < 8,
    ensures
        blit(grid, x as int, y as int, sprite)[(y + r) % 32][(x + c) % 64] == (grid[(y + r)
            % 32][(x + c) % 64] != bit_of(sprite[r], c)),
{
    let px = (x + c) % 64;
    let py = (y + r) % 32;
    assert(sprite_row(y as int, py) == r);
    assert(sprite_col(x as int, px) == c);
}

/// A cell on which no bit of the sprite lands is left as it was.
pub proof fn lemma_other_cells_kept(
    grid: Seq<Seq<bool>>,
    x: u8,
    y: u8,
    sprite: Seq<u8>,
    px: int,
    py: int,
)
    requires
        is_grid(grid),
        0 <= px < 64,
        0 <= py < 32,
        forall|r: int, c: int|
            0 <= r < sprite.len() && 0 <= c < 8 ==> !(#[trigger] ((y + r) % 32) == py
                && #[trigger] ((x + c) % 64) == px),
    ensures
        blit(grid, x as int, y as int, sprite)[py][px] == grid[py][px],
{
    let r = sprite_row(y as int, py);
    let c = sprite_col(x as int, px);
    if r < sprite.len() && c < 8 {
        assert((y + r) % 32 == py);
        assert((x + c) % 64 == px);
    }
}

/// Clearing leaves the same grid whatever was on it, so clearing twice is
/// clearing once; and no cell of that grid is lit.
pub proof fn lemma_blank_is_dark(px: int, py: int)
    requires
        0 <= px < 64,
        0 <= py < 32,
    ensures
        !blank_grid()[py][px],
        is_grid(blank_grid()),
{
}

} // verus!
