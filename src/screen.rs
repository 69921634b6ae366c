use vstd::prelude::*;
use vstd::arithmetic::div_mod::{lemma_fundamental_div_mod, lemma_fundamental_div_mod_converse};

verus! {

/// Width of the display in pixels.
pub const WIDTH: usize = 64;

/// Height of the display in pixels.
pub const HEIGHT: usize = 32;

/// Number of pixels of the display.
pub const PIXEL_COUNT: usize = 2048;

/// One entry of a display snapshot: a position and whether it is lit.
#[derive(Debug, Clone, Copy, PartialEq, Eq)]
pub struct Pixel {
    x: usize,
    y: usize,
    on: bool,
}

impl View for Pixel {
    /// Column, row and lit state.
    type V = (int, int, bool);

    closed spec fn view(&self) -> (int, int, bool) {
        (self.x as int, self.y as int, self.on)
    }
}

impl Pixel {
    pub fn x(&self) -> (r: usize)
        ensures
            r == self@.0,
    {
        self.x
    }

    pub fn y(&self) -> (r: usize)
        ensures
            r == self@.1,
    {
        self.y
    }

    pub fn on(&self) -> (r: bool)
        ensures
            r == self@.2,
    {
        self.on
    }
}

/// Where the pixel at column `x`, row `y` is kept, after both coordinates
/// wrap around the edges of the display.
pub open spec fn index_of(x: int, y: int) -> int {
    (y % 32) * 64 + x % 64
}

/// A 64 x 32 monochrome framebuffer, stored row by row.
pub struct Screen {
    cells: [bool; 2048],
}

impl View for Screen {
    type V = Seq<bool>;

    closed spec fn view(&self) -> Seq<bool> {
        self.cells@
    }
}

/// The display with every pixel off.
pub open spec fn blank() -> Seq<bool> {
    Seq::new(2048, |p: int| false)
}

impl Screen {
    /// The display always holds one entry per pixel.
    pub proof fn lemma_len(&self)
        ensures
            self@.len() == 2048,
    {
    }

    /// A display with every pixel off.
    pub fn new() -> (s: Screen)
        ensures
            s@ == blank(),
    {
        let s = Screen { cells: [false; 2048] };
        assert(s@ =~= blank());
        s
    }

    /// Turns every pixel off.
    pub fn clear(&mut self)
        ensures
            final(self)@ == blank(),
    {
        let mut k: usize = 0;
        while k < PIXEL_COUNT
            invariant
                0 <= k <= 2048,
                self@.len() == 2048,
                forall|p: int| 0 <= p < k ==> !self@[p],
            decreases 2048 - k,
        {
            self.cells[k] = false;
            k += 1;
        }
        assert(self@ =~= blank());
    }

    /// A fresh snapshot of the display, row by row: the entry at `k` is the
    /// pixel at column `k % 64`, row `k / 64`.
    pub fn pixels(&self) -> (r: Vec<Pixel>)
        ensures
            r@.len() == 2048,
            forall|k: int|
                0 <= k < 2048 ==> r@[k]@ == (k % 64, k / 64, self@[k]),
    {
        let mut r: Vec<Pixel> = Vec::new();
        let mut k: usize = 0;
        while k < PIXEL_COUNT
            invariant
                0 <= k <= 2048,
                r@.len() == k,
                forall|j: int|
                    0 <= j < k ==> r@[j]@ == (j % 64, j / 64, self@[j]),
            decreases 2048 - k,
        {
            r.push(Pixel { x: k % WIDTH, y: k / WIDTH, on: self.cells[k] });
            k += 1;
        }
        r
    }

    /// Draws a sprite, one row per byte, with its top-left corner at column
    /// `vx`, row `vy`: each set bit toggles the pixel under it, wrapping
    /// around the edges. Reports whether a lit pixel was turned off.
    pub fn draw_sprite(&mut self, vx: u8, vy: u8, sprite: &Vec<u8>) -> (collision: bool)
        requires
            sprite@.len() <= 32,
        ensures
            final(self)@ == draw_sprite(old(self)@, vx as int, vy as int, sprite@),
            collision == sprite_collides(old(self)@, vx as int, vy as int, sprite@),
    {
        let ghost s0 = self@;
        let ghost (x0, y0) = (vx as int, vy as int);
        let mut collision = false;
        let mut line: usize = 0;
        while line < sprite.len()
            invariant
                line <= sprite@.len() <= 32,
                x0 == vx as int,
                y0 == vy as int,
                s0.len() == 2048,
                self@.len() == 2048,
                forall|p: int|
                    0 <= p < 2048 ==> #[trigger] self@[p] == (s0[p] != (sprite_covers(
                        x0,
                        y0,
                        sprite@,
                        p,
                    ) && drawn_before(x0, y0, p, line as int, 0))),
                collision == exists|p: int|
                    0 <= p < 2048 && s0[p] && #[trigger] sprite_covers(x0, y0, sprite@, p)
                        && drawn_before(x0, y0, p, line as int, 0),
            decreases sprite@.len() - line,
        {
            let row = sprite[line];
            let mut offset: usize = 0;
            while offset < 8
                invariant
                    line < sprite@.len() <= 32,
                    row == sprite@[line as int],
                    offset <= 8,
                    x0 == vx as int,
                    y0 == vy as int,
                    s0.len() == 2048,
                    self@.len() == 2048,
                    forall|p: int|
                        0 <= p < 2048 ==> #[trigger] self@[p] == (s0[p] != (sprite_covers(
                            x0,
                            y0,
                            sprite@,
                            p,
                        ) && drawn_before(x0, y0, p, line as int, offset as int))),
                    collision == exists|p: int|
                        0 <= p < 2048 && s0[p] && #[trigger] sprite_covers(x0, y0, sprite@, p)
                            && drawn_before(x0, y0, p, line as int, offset as int),
                decreases 8 - offset,
            {
                let ghost before = self@;
                let ghost was = collision;
                proof {
                    lemma_sprite_cell(x0, y0, line as int, offset as int);
                }
                let ghost q = index_of(x0 + offset, y0 + line);
                if row & (0x80u8 >> (offset as u8)) != 0 {
                    assert(sprite_covers(x0, y0, sprite@, q));
                    if self.set_pixel_value(vx as usize + offset, vy as usize + line, true) {
                        collision = true;
                    }
                    assert(self@ == before.update(q, !before[q]));
                } else {
                    assert(!sprite_covers(x0, y0, sprite@, q));
                }
                assert forall|p: int|
                    0 <= p < 2048 && #[trigger] sprite_covers(x0, y0, sprite@, p) implies (
                    drawn_before(x0, y0, p, line as int, offset + 1) == (drawn_before(
                        x0,
                        y0,
                        p,
                        line as int,
                        offset as int,
                    ) || p == q)) by {}
                assert(collision == exists|p: int|
                    0 <= p < 2048 && s0[p] && #[trigger] sprite_covers(x0, y0, sprite@, p)
                        && drawn_before(x0, y0, p, line as int, offset + 1)) by {
                    if collision && !was {
                        assert(s0[q] && sprite_covers(x0, y0, sprite@, q) && drawn_before(
                            x0,
                            y0,
                            q,
                            line as int,
                            offset + 1,
                        ));
                    }
                }
                offset += 1;
            }
            line += 1;
        }
        assert(self@ =~= draw_sprite(s0, x0, y0, sprite@));
        collision
    }

    /// Writes one pixel at wrapped coordinates. Writing "on" toggles the
    /// pixel and reports a collision when it was lit; writing "off" turns
    /// it off and reports none.
    pub fn set_pixel_value(&mut self, x: usize, y: usize, on: bool) -> (collision: bool)
        ensures
            collision == (on && old(self)@[index_of(x as int, y as int)]),
            final(self)@ == old(self)@.update(
                index_of(x as int, y as int),
                on && !old(self)@[index_of(x as int, y as int)],
            ),
    {
        let index = ((y % HEIGHT) * WIDTH) + (x % WIDTH);
        if on && self.cells[index] {
            self.cells[index] = false;
            true
        } else {
            self.cells[index] = on;
            false
        }
    }
}

/// Whether bit `col` of a sprite row is set, counting from the most
/// significant bit, which is drawn leftmost.
pub open spec fn sprite_bit(row: u8, col: int) -> bool {
    row & (0x80u8 >> (col as u8)) != 0
}

/// Whether the sprite placed with its top-left corner at column `vx`, row
/// `vy` has a set bit over pixel `p`. The sprite wraps around both edges.
pub open spec fn sprite_covers(vx: int, vy: int, sprite: Seq<u8>, p: int) -> bool {
    let row = sprite_row(vy, p);
    let col = sprite_col(vx, p);
    row < sprite.len() && col < 8 && sprite_bit(sprite[row], col)
}

/// The sprite row that lies over pixel `p` when the sprite's top is at row
/// `vy`, counting down and wrapping.
pub open spec fn sprite_row(vy: int, p: int) -> int {
    (p / 64 - vy) % 32
}

/// The sprite column that lies over pixel `p` when the sprite's left edge
/// is at column `vx`, counting right and wrapping.
pub open spec fn sprite_col(vx: int, p: int) -> int {
    (p % 64 - vx) % 64
}

/// The display after the sprite is drawn: every pixel under a set bit is
/// toggled, every other pixel is kept.
pub open spec fn draw_sprite(screen: Seq<bool>, vx: int, vy: int, sprite: Seq<u8>) -> Seq<bool> {
    Seq::new(2048, |p: int| screen[p] != sprite_covers(vx, vy, sprite, p))
}

/// Whether drawing the sprite turns off a lit pixel.
pub open spec fn sprite_collides(screen: Seq<bool>, vx: int, vy: int, sprite: Seq<u8>) -> bool {
    exists|p: int| 0 <= p < 2048 && screen[p] && sprite_covers(vx, vy, sprite, p)
}

/// Whether row `line`, column `off` of the sprite has been reached when
/// pixel `p` is passed, drawing row by row and left to right.
spec fn drawn_before(vx: int, vy: int, p: int, line: int, off: int) -> bool {
    sprite_row(vy, p) < line || (sprite_row(vy, p) == line && sprite_col(vx, p) < off)
}

/// The pixel that row `line`, column `off` of a sprite placed at (`vx`,
/// `vy`) lands on is the wrapped position, inside the display, and no
/// other pixel lies under that row and column.
pub proof fn lemma_sprite_cell(vx: int, vy: int, line: int, off: int)
    requires
        0 <= vx,
        0 <= vy,
        0 <= line < 32,
        0 <= off < 64,
    ensures
        0 <= index_of(vx + off, vy + line) < 2048,
        index_of(vx + off, vy + line) / 64 == (vy + line) % 32,
        index_of(vx + off, vy + line) % 64 == (vx + off) % 64,
        sprite_row(vy, index_of(vx + off, vy + line)) == line,
        sprite_col(vx, index_of(vx + off, vy + line)) == off,
        forall|p: int|
            0 <= p < 2048 && #[trigger] sprite_row(vy, p) == line && #[trigger] sprite_col(vx, p)
                == off ==> p == index_of(vx + off, vy + line),
{
    let q = index_of(vx + off, vy + line);
    let (qy, qx) = ((vy + line) % 32, (vx + off) % 64);
    lemma_fundamental_div_mod_converse(q, 64, qy, qx);
    lemma_fundamental_div_mod(vy + line, 32);
    lemma_fundamental_div_mod(vx + off, 64);
    lemma_fundamental_div_mod_converse(qy - vy, 32, -((vy + line) / 32), line);
    lemma_fundamental_div_mod_converse(qx - vx, 64, -((vx + off) / 64), off);
    assert forall|p: int|
        0 <= p < 2048 && #[trigger] sprite_row(vy, p) == line && #[trigger] sprite_col(vx, p)
            == off implies p == q by {
        let (py, px) = (p / 64, p % 64);
        lemma_fundamental_div_mod(p, 64);
        lemma_fundamental_div_mod(py - vy, 32);
        lemma_fundamental_div_mod(px - vx, 64);
        lemma_fundamental_div_mod_converse(vy + line, 32, -((py - vy) / 32), py);
        lemma_fundamental_div_mod_converse(vx + off, 64, -((px - vx) / 64), px);
    }
}

/// Drawing the same sprite twice at the same place gives back the display
/// as it was: every pixel the sprite touches is toggled twice.
pub proof fn lemma_draw_twice(screen: Seq<bool>, vx: int, vy: int, sprite: Seq<u8>)
    requires
        screen.len() == 2048,
    ensures
        draw_sprite(draw_sprite(screen, vx, vy, sprite), vx, vy, sprite) == screen,
{
    assert(draw_sprite(draw_sprite(screen, vx, vy, sprite), vx, vy, sprite) =~= screen);
}

/// On a blank display a sprite drawn once lights exactly the pixels under
/// its set bits and collides with nothing; drawn a second time it turns
/// them all off again and collides exactly when it lit any pixel.
pub proof fn lemma_draw_on_blank(vx: int, vy: int, sprite: Seq<u8>)
    ensures
        !sprite_collides(blank(), vx, vy, sprite),
        forall|p: int|
            0 <= p < 2048 ==> #[trigger] draw_sprite(blank(), vx, vy, sprite)[p] == sprite_covers(
                vx,
                vy,
                sprite,
                p,
            ),
        draw_sprite(draw_sprite(blank(), vx, vy, sprite), vx, vy, sprite) == blank(),
        sprite_collides(draw_sprite(blank(), vx, vy, sprite), vx, vy, sprite) == exists|p: int|
            0 <= p < 2048 && #[trigger] sprite_covers(vx, vy, sprite, p),
{
    lemma_draw_twice(blank(), vx, vy, sprite);
    let once = draw_sprite(blank(), vx, vy, sprite);
    if exists|p: int| 0 <= p < 2048 && #[trigger] sprite_covers(vx, vy, sprite, p) {
        let p = choose|p: int| 0 <= p < 2048 && #[trigger] sprite_covers(vx, vy, sprite, p);
        assert(once[p] && sprite_covers(vx, vy, sprite, p));
    }
}

/// Each set bit of a sprite lands on the pixel at the wrapped position of
/// its column and row, always inside the display, and drawing toggles that
/// pixel: a sprite that runs past an edge continues at the opposite edge.
pub proof fn lemma_sprite_wraps(
    screen: Seq<bool>,
    vx: int,
    vy: int,
    sprite: Seq<u8>,
    line: int,
    off: int,
)
    requires
        screen.len() == 2048,
        0 <= vx,
        0 <= vy,
        0 <= line < sprite.len(),
        line < 32,
        0 <= off < 8,
        sprite_bit(sprite[line], off),
    ensures
        0 <= index_of(vx + off, vy + line) < 2048,
        index_of(vx + off, vy + line) == ((vy + line) % 32) * 64 + (vx + off) % 64,
        sprite_covers(vx, vy, sprite, index_of(vx + off, vy + line)),
        draw_sprite(screen, vx, vy, sprite)[index_of(vx + off, vy + line)] != screen[index_of(
            vx + off,
            vy + line,
        )],
{
    lemma_sprite_cell(vx, vy, line, off);
}

} // verus!
