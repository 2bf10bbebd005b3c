//! The monochrome framebuffer: a fixed 64x32 grid of binary pixels with a
//! clear operation and XOR sprite drawing.
//!
//! A sprite is a sequence of up to fifteen bytes, each byte one eight-pixel
//! row read most significant bit first.  Drawing XORs every lit sprite cell
//! onto the grid and reports whether any pixel was toggled from on to off;
//! that report becomes the machine's collision flag.  Coordinates wrap
//! modulo the screen size, so a sprite drawn near an edge continues on the
//! opposite side.  The buffer also tracks whether it changed since it was
//! last presented, so a host can skip redundant frame pushes.

use vstd::prelude::*;

verus! {

use vstd::arithmetic::div_mod::lemma_mod_add_multiples_vanish;
use vstd::arithmetic::div_mod::lemma_mod_bound;
use vstd::arithmetic::div_mod::lemma_mod_equivalence;
use vstd::arithmetic::div_mod::lemma_small_mod;

/// Width of the screen in pixels.
pub const SCREEN_WIDTH: usize = 64;

/// Height of the screen in pixels.
pub const SCREEN_HEIGHT: usize = 32;

/// Number of cells in the pixel grid.
pub const SCREEN_PIXELS: usize = SCREEN_WIDTH * SCREEN_HEIGHT;

/// The mathematical model of the framebuffer: the pixel grid in row-major
/// order and the dirty mark.
#[verifier::ext_equal]
pub struct FramebufferView {
    pub pixels: Seq<bool>,
    pub dirty: bool,
}

impl FramebufferView {
    /// The grid holds exactly one cell per screen pixel.
    pub open spec fn wf(self) -> bool {
        self.pixels.len() == SCREEN_PIXELS
    }
}

/// The row-major index of the pixel that sprite cell `(dx, dy)` lands on
/// when the sprite is drawn at `(x, y)`: both coordinates wrap modulo the
/// screen size.
pub open spec fn pixel_index(x: u8, y: u8, dx: int, dy: int) -> int {
    ((y + dy) % (SCREEN_HEIGHT as int)) * (SCREEN_WIDTH as int) + (x + dx) % (SCREEN_WIDTH as int)
}

/// Cell `dx` of a sprite row, most significant bit first: bit 7 of the byte
/// is the leftmost pixel.
pub open spec fn sprite_bit(row: u8, dx: int) -> bool {
    (row >> ((7 - dx) as u8)) & 1 == 1
}

/// Whether some lit cell of the sprite lands on grid index `p`.
pub open spec fn sprite_covers(sprite: Seq<u8>, x: u8, y: u8, p: int) -> bool {
    exists|dy: int, dx: int|
        0 <= dy < sprite.len() && 0 <= dx < 8 && sprite_bit(sprite[dy], dx) && p == pixel_index(
            x,
            y,
            dx,
            dy,
        )
}

/// The grid after XOR-drawing `sprite` at `(x, y)`: each covered pixel is
/// inverted, every other pixel keeps its value.
pub open spec fn spec_draw(pixels: Seq<bool>, sprite: Seq<u8>, x: u8, y: u8) -> Seq<bool> {
    Seq::new(pixels.len(), |p: int| pixels[p] != sprite_covers(sprite, x, y, p))
}

/// Whether drawing `sprite` at `(x, y)` toggles at least one pixel from on
/// to off, that is, whether some lit sprite cell lands on a lit pixel.
pub open spec fn spec_toggles_off(pixels: Seq<bool>, sprite: Seq<u8>, x: u8, y: u8) -> bool {
    exists|dy: int, dx: int|
        0 <= dy < sprite.len() && 0 <= dx < 8 && sprite_bit(sprite[dy], dx) && pixels[pixel_index(
            x,
            y,
            dx,
            dy,
        )]
}

/// The part of the sprite a row-by-row, bit-by-bit draw has applied so far:
/// every full row below `rows`, and the first `bits` cells of row `rows`.
spec fn cell_done(dy: int, dx: int, rows: int, bits: int) -> bool {
    dy < rows || (dy == rows && dx < bits)
}

/// `sprite_covers` restricted to the cells a partial draw has applied.
spec fn covers_upto(sprite: Seq<u8>, x: u8, y: u8, p: int, rows: int, bits: int) -> bool {
    exists|dy: int, dx: int|
        0 <= dy < sprite.len() && 0 <= dx < 8 && cell_done(dy, dx, rows, bits) && sprite_bit(
            sprite[dy],
            dx,
        ) && p == pixel_index(x, y, dx, dy)
}

/// `spec_toggles_off` restricted to the cells a partial draw has applied.
spec fn toggles_upto(
    pixels: Seq<bool>,
    sprite: Seq<u8>,
    x: u8,
    y: u8,
    rows: int,
    bits: int,
) -> bool {
    exists|dy: int, dx: int|
        0 <= dy < sprite.len() && 0 <= dx < 8 && cell_done(dy, dx, rows, bits) && sprite_bit(
            sprite[dy],
            dx,
        ) && pixels[pixel_index(x, y, dx, dy)]
}

/// The grid after a partial draw.
spec fn partial_draw(
    pixels: Seq<bool>,
    sprite: Seq<u8>,
    x: u8,
    y: u8,
    rows: int,
    bits: int,
) -> Seq<bool> {
    Seq::new(pixels.len(), |p: int| pixels[p] != covers_upto(sprite, x, y, p, rows, bits))
}

/// Every sprite cell lands inside the grid.
proof fn lemma_pixel_index_bounds(x: u8, y: u8, dx: int, dy: int)
    requires
        0 <= dx,
        0 <= dy,
    ensures
        0 <= pixel_index(x, y, dx, dy) < SCREEN_PIXELS,
{
    lemma_mod_bound(y + dy, SCREEN_HEIGHT as int);
    lemma_mod_bound(x + dx, SCREEN_WIDTH as int);
}

/// Distinct cells of one sprite land on distinct pixels: the sprite is at
/// most 8 cells wide and at most 32 rows tall, so wrapping cannot fold two
/// of its cells together.
proof fn lemma_pixel_index_injective(x: u8, y: u8, dx1: int, dy1: int, dx2: int, dy2: int)
    requires
        0 <= dx1 < 8,
        0 <= dx2 < 8,
        0 <= dy1 < 32,
        0 <= dy2 < 32,
        dx1 != dx2 || dy1 != dy2,
    ensures
        pixel_index(x, y, dx1, dy1) != pixel_index(x, y, dx2, dy2),
{
    let r1 = (y + dy1) % (SCREEN_HEIGHT as int);
    let c1 = (x + dx1) % (SCREEN_WIDTH as int);
    let r2 = (y + dy2) % (SCREEN_HEIGHT as int);
    let c2 = (x + dx2) % (SCREEN_WIDTH as int);
    lemma_mod_bound(y + dy1, SCREEN_HEIGHT as int);
    lemma_mod_bound(y + dy2, SCREEN_HEIGHT as int);
    lemma_mod_bound(x + dx1, SCREEN_WIDTH as int);
    lemma_mod_bound(x + dx2, SCREEN_WIDTH as int);
    if pixel_index(x, y, dx1, dy1) == pixel_index(x, y, dx2, dy2) {
        assert(r1 == r2 && c1 == c2);
        if dy1 != dy2 {
            lemma_mod_equivalence(y + dy1, y + dy2, SCREEN_HEIGHT as int);
            let d = dy1 - dy2;
            assert(d % 32 == 0);
            if d > 0 {
                lemma_small_mod(d as nat, 32);
            } else {
                lemma_mod_add_multiples_vanish(d, 32);
                lemma_small_mod((d + 32) as nat, 32);
            }
        } else {
            lemma_mod_equivalence(x + dx1, x + dx2, SCREEN_WIDTH as int);
            let d = dx1 - dx2;
            assert(d % 64 == 0);
            if d > 0 {
                lemma_small_mod(d as nat, 64);
            } else {
                lemma_mod_add_multiples_vanish(d, 64);
                lemma_small_mod((d + 64) as nat, 64);
            }
        }
        assert(false);
    }
}

/// Before any cell is applied, a partial draw covers nothing and has
/// toggled nothing off.
proof fn lemma_partial_empty(pixels: Seq<bool>, sprite: Seq<u8>, x: u8, y: u8)
    ensures
        forall|p: int| !covers_upto(sprite, x, y, p, 0, 0),
        !toggles_upto(pixels, sprite, x, y, 0, 0),
{
}

/// Finishing a row is the same as standing at the start of the next row.
proof fn lemma_partial_row_wrap(pixels: Seq<bool>, sprite: Seq<u8>, x: u8, y: u8, rows: int)
    ensures
        forall|p: int|
            covers_upto(sprite, x, y, p, rows, 8) == covers_upto(sprite, x, y, p, rows + 1, 0),
        toggles_upto(pixels, sprite, x, y, rows, 8) == toggles_upto(
            pixels,
            sprite,
            x,
            y,
            rows + 1,
            0,
        ),
{
    assert forall|p: int|
        covers_upto(sprite, x, y, p, rows, 8) == covers_upto(sprite, x, y, p, rows + 1, 0) by {
        if covers_upto(sprite, x, y, p, rows, 8) {
            let (dy, dx) = choose|dy: int, dx: int|
                0 <= dy < sprite.len() && 0 <= dx < 8 && cell_done(dy, dx, rows, 8) && sprite_bit(
                    sprite[dy],
                    dx,
                ) && p == pixel_index(x, y, dx, dy);
            assert(cell_done(dy, dx, rows + 1, 0));
            assert(covers_upto(sprite, x, y, p, rows + 1, 0));
        }
        if covers_upto(sprite, x, y, p, rows + 1, 0) {
            let (dy, dx) = choose|dy: int, dx: int|
                0 <= dy < sprite.len() && 0 <= dx < 8 && cell_done(dy, dx, rows + 1, 0)
                    && sprite_bit(sprite[dy], dx) && p == pixel_index(x, y, dx, dy);
            assert(cell_done(dy, dx, rows, 8));
            assert(covers_upto(sprite, x, y, p, rows, 8));
        }
    }
    if toggles_upto(pixels, sprite, x, y, rows, 8) {
        let (dy, dx) = choose|dy: int, dx: int|
            0 <= dy < sprite.len() && 0 <= dx < 8 && cell_done(dy, dx, rows, 8) && sprite_bit(
                sprite[dy],
                dx,
            ) && pixels[pixel_index(x, y, dx, dy)];
        assert(cell_done(dy, dx, rows + 1, 0));
        assert(toggles_upto(pixels, sprite, x, y, rows + 1, 0));
    }
    if toggles_upto(pixels, sprite, x, y, rows + 1, 0) {
        let (dy, dx) = choose|dy: int, dx: int|
            0 <= dy < sprite.len() && 0 <= dx < 8 && cell_done(dy, dx, rows + 1, 0) && sprite_bit(
                sprite[dy],
                dx,
            ) && pixels[pixel_index(x, y, dx, dy)];
        assert(cell_done(dy, dx, rows, 8));
        assert(toggles_upto(pixels, sprite, x, y, rows, 8));
    }
}

/// Once every row is applied, the partial notions agree with the full ones.
proof fn lemma_partial_done(pixels: Seq<bool>, sprite: Seq<u8>, x: u8, y: u8)
    ensures
        forall|p: int|
            covers_upto(sprite, x, y, p, sprite.len() as int, 0) == sprite_covers(sprite, x, y, p),
        toggles_upto(pixels, sprite, x, y, sprite.len() as int, 0) == spec_toggles_off(
            pixels,
            sprite,
            x,
            y,
        ),
{
    let rows = sprite.len() as int;
    assert forall|p: int|
        covers_upto(sprite, x, y, p, rows, 0) == sprite_covers(sprite, x, y, p) by {
        if covers_upto(sprite, x, y, p, rows, 0) {
            let (dy, dx) = choose|dy: int, dx: int|
                0 <= dy < sprite.len() && 0 <= dx < 8 && cell_done(dy, dx, rows, 0) && sprite_bit(
                    sprite[dy],
                    dx,
                ) && p == pixel_index(x, y, dx, dy);
            assert(sprite_covers(sprite, x, y, p));
        }
        if sprite_covers(sprite, x, y, p) {
            let (dy, dx) = choose|dy: int, dx: int|
                0 <= dy < sprite.len() && 0 <= dx < 8 && sprite_bit(sprite[dy], dx) && p
                    == pixel_index(x, y, dx, dy);
            assert(cell_done(dy, dx, rows, 0));
            assert(covers_upto(sprite, x, y, p, rows, 0));
        }
    }
    if toggles_upto(pixels, sprite, x, y, rows, 0) {
        let (dy, dx) = choose|dy: int, dx: int|
            0 <= dy < sprite.len() && 0 <= dx < 8 && cell_done(dy, dx, rows, 0) && sprite_bit(
                sprite[dy],
                dx,
            ) && pixels[pixel_index(x, y, dx, dy)];
        assert(spec_toggles_off(pixels, sprite, x, y));
    }
    if spec_toggles_off(pixels, sprite, x, y) {
        let (dy, dx) = choose|dy: int, dx: int|
            0 <= dy < sprite.len() && 0 <= dx < 8 && sprite_bit(sprite[dy], dx)
                && pixels[pixel_index(x, y, dx, dy)];
        assert(cell_done(dy, dx, rows, 0));
        assert(toggles_upto(pixels, sprite, x, y, rows, 0));
    }
}

/// What applying one more cell does to a partial draw.  When the cell is
/// lit, its target pixel was not covered yet (cells land on distinct
/// pixels), is covered afterwards, and no other pixel changes; when the
/// cell is dark, nothing changes.
proof fn lemma_partial_step(pixels: Seq<bool>, sprite: Seq<u8>, x: u8, y: u8, rows: int, bits: int)
    requires
        0 <= rows < sprite.len() <= 15,
        0 <= bits < 8,
    ensures
        sprite_bit(sprite[rows], bits) ==> !covers_upto(
            sprite,
            x,
            y,
            pixel_index(x, y, bits, rows),
            rows,
            bits,
        ),
        sprite_bit(sprite[rows], bits) ==> covers_upto(
            sprite,
            x,
            y,
            pixel_index(x, y, bits, rows),
            rows,
            bits + 1,
        ),
        forall|p: int|
            p != pixel_index(x, y, bits, rows) ==> covers_upto(sprite, x, y, p, rows, bits + 1)
                == covers_upto(sprite, x, y, p, rows, bits),
        !sprite_bit(sprite[rows], bits) ==> forall|p: int|
            covers_upto(sprite, x, y, p, rows, bits + 1) == covers_upto(
                sprite,
                x,
                y,
                p,
                rows,
                bits,
            ),
        toggles_upto(pixels, sprite, x, y, rows, bits + 1) == (toggles_upto(
            pixels,
            sprite,
            x,
            y,
            rows,
            bits,
        ) || (sprite_bit(sprite[rows], bits) && pixels[pixel_index(x, y, bits, rows)])),
{
    let q = pixel_index(x, y, bits, rows);
    if sprite_bit(sprite[rows], bits) {
        if covers_upto(sprite, x, y, q, rows, bits) {
            let (dy, dx) = choose|dy: int, dx: int|
                0 <= dy < sprite.len() && 0 <= dx < 8 && cell_done(dy, dx, rows, bits)
                    && sprite_bit(sprite[dy], dx) && q == pixel_index(x, y, dx, dy);
            lemma_pixel_index_injective(x, y, dx, dy, bits, rows);
            assert(false);
        }
        assert(cell_done(rows, bits, rows, bits + 1));
        assert(covers_upto(sprite, x, y, q, rows, bits + 1));
    }
    assert forall|p: int| p != q implies covers_upto(sprite, x, y, p, rows, bits + 1)
        == covers_upto(sprite, x, y, p, rows, bits) by {
        if covers_upto(sprite, x, y, p, rows, bits + 1) {
            let (dy, dx) = choose|dy: int, dx: int|
                0 <= dy < sprite.len() && 0 <= dx < 8 && cell_done(dy, dx, rows, bits + 1)
                    && sprite_bit(sprite[dy], dx) && p == pixel_index(x, y, dx, dy);
            if dy == rows && dx == bits {
                assert(p == q);
                assert(false);
            }
            assert(cell_done(dy, dx, rows, bits));
            assert(covers_upto(sprite, x, y, p, rows, bits));
        }
        if covers_upto(sprite, x, y, p, rows, bits) {
            let (dy, dx) = choose|dy: int, dx: int|
                0 <= dy < sprite.len() && 0 <= dx < 8 && cell_done(dy, dx, rows, bits)
                    && sprite_bit(sprite[dy], dx) && p == pixel_index(x, y, dx, dy);
            assert(cell_done(dy, dx, rows, bits + 1));
            assert(covers_upto(sprite, x, y, p, rows, bits + 1));
        }
    }
    if !sprite_bit(sprite[rows], bits) {
        assert forall|p: int| covers_upto(sprite, x, y, p, rows, bits + 1) == covers_upto(
            sprite,
            x,
            y,
            p,
            rows,
            bits,
        ) by {
            if covers_upto(sprite, x, y, p, rows, bits + 1) {
                let (dy, dx) = choose|dy: int, dx: int|
                    0 <= dy < sprite.len() && 0 <= dx < 8 && cell_done(dy, dx, rows, bits + 1)
                        && sprite_bit(sprite[dy], dx) && p == pixel_index(x, y, dx, dy);
                assert(cell_done(dy, dx, rows, bits));
                assert(covers_upto(sprite, x, y, p, rows, bits));
            }
            if covers_upto(sprite, x, y, p, rows, bits) {
                let (dy, dx) = choose|dy: int, dx: int|
                    0 <= dy < sprite.len() && 0 <= dx < 8 && cell_done(dy, dx, rows, bits)
                        && sprite_bit(sprite[dy], dx) && p == pixel_index(x, y, dx, dy);
                assert(cell_done(dy, dx, rows, bits + 1));
                assert(covers_upto(sprite, x, y, p, rows, bits + 1));
            }
        }
    }
    if toggles_upto(pixels, sprite, x, y, rows, bits + 1) {
        let (dy, dx) = choose|dy: int, dx: int|
            0 <= dy < sprite.len() && 0 <= dx < 8 && cell_done(dy, dx, rows, bits + 1)
                && sprite_bit(sprite[dy], dx) && pixels[pixel_index(x, y, dx, dy)];
        if dy == rows && dx == bits {
            assert(sprite_bit(sprite[rows], bits) && pixels[q]);
        } else {
            assert(cell_done(dy, dx, rows, bits));
            assert(toggles_upto(pixels, sprite, x, y, rows, bits));
        }
    }
    if toggles_upto(pixels, sprite, x, y, rows, bits) {
        let (dy, dx) = choose|dy: int, dx: int|
            0 <= dy < sprite.len() && 0 <= dx < 8 && cell_done(dy, dx, rows, bits) && sprite_bit(
                sprite[dy],
                dx,
            ) && pixels[pixel_index(x, y, dx, dy)];
        assert(cell_done(dy, dx, rows, bits + 1));
        assert(toggles_upto(pixels, sprite, x, y, rows, bits + 1));
    }
    if sprite_bit(sprite[rows], bits) && pixels[q] {
        assert(cell_done(rows, bits, rows, bits + 1));
        assert(toggles_upto(pixels, sprite, x, y, rows, bits + 1));
    }
}

/// Drawing the same sprite twice at the same spot restores the original
/// grid, because XOR is its own inverse and the cells of one sprite land on
/// distinct pixels.  The second draw reports an on-to-off toggle exactly
/// when the first draw turned some pixel on, since exactly those pixels are
/// lit under the sprite when it is drawn again.
pub proof fn lemma_draw_twice_restores(pixels: Seq<bool>, sprite: Seq<u8>, x: u8, y: u8)
    requires
        pixels.len() == SCREEN_PIXELS,
        sprite.len() <= 15,
    ensures
        spec_draw(spec_draw(pixels, sprite, x, y), sprite, x, y) =~= pixels,
        spec_toggles_off(spec_draw(pixels, sprite, x, y), sprite, x, y) <==> (exists|
            dy: int,
            dx: int,
        |
            0 <= dy < sprite.len() && 0 <= dx < 8 && sprite_bit(sprite[dy], dx)
                && !pixels[pixel_index(x, y, dx, dy)]),
{
    let once = spec_draw(pixels, sprite, x, y);
    assert forall|p: int| 0 <= p < SCREEN_PIXELS implies spec_draw(once, sprite, x, y)[p]
        == pixels[p] by {
        assert(once[p] == (pixels[p] != sprite_covers(sprite, x, y, p)));
    }
    if spec_toggles_off(once, sprite, x, y) {
        let (dy, dx) = choose|dy: int, dx: int|
            0 <= dy < sprite.len() && 0 <= dx < 8 && sprite_bit(sprite[dy], dx)
                && once[pixel_index(x, y, dx, dy)];
        let q = pixel_index(x, y, dx, dy);
        lemma_pixel_index_bounds(x, y, dx, dy);
        assert(sprite_covers(sprite, x, y, q));
        assert(once[q] == !pixels[q]);
        assert(!pixels[pixel_index(x, y, dx, dy)]);
    }
    if exists|dy: int, dx: int|
        0 <= dy < sprite.len() && 0 <= dx < 8 && sprite_bit(sprite[dy], dx) && !pixels[pixel_index(
            x,
            y,
            dx,
            dy,
        )] {
        let (dy, dx) = choose|dy: int, dx: int|
            0 <= dy < sprite.len() && 0 <= dx < 8 && sprite_bit(sprite[dy], dx)
                && !pixels[pixel_index(x, y, dx, dy)];
        let q = pixel_index(x, y, dx, dy);
        lemma_pixel_index_bounds(x, y, dx, dy);
        assert(sprite_covers(sprite, x, y, q));
        assert(once[q]);
        assert(spec_toggles_off(once, sprite, x, y));
    }
}

/// The monochrome pixel grid, row-major, with a mark telling whether it
/// changed since the last presentation.
pub struct Framebuffer {
    pixels: Vec<bool>,
    dirty: bool,
}

impl View for Framebuffer {
    type V = FramebufferView;

    closed spec fn view(&self) -> FramebufferView {
        FramebufferView { pixels: self.pixels@, dirty: self.dirty }
    }
}

impl Framebuffer {
    /// A fresh screen: every pixel off, and dirty so that the first
    /// presentation happens.
    pub fn new() -> (fb: Framebuffer)
        ensures
            fb@.wf(),
            fb@.pixels =~= Seq::new(SCREEN_PIXELS as nat, |p: int| false),
            fb@.dirty,
    {
        let mut pixels: Vec<bool> = Vec::new();
        let mut k: usize = 0;
        while k < SCREEN_PIXELS
            invariant
                k <= SCREEN_PIXELS,
                pixels@.len() == k,
                forall|p: int| 0 <= p < k ==> !pixels@[p],
            decreases SCREEN_PIXELS - k,
        {
            pixels.push(false);
            k = k + 1;
        }
        Framebuffer { pixels, dirty: true }
    }

    /// Turn every pixel off and mark the buffer dirty.
    pub fn clear_screen(&mut self)
        requires
            old(self)@.wf(),
        ensures
            final(self)@.wf(),
            final(self)@.pixels =~= Seq::new(SCREEN_PIXELS as nat, |p: int| false),
            final(self)@.dirty,
    {
        let mut k: usize = 0;
        while k < SCREEN_PIXELS
            invariant
                k <= SCREEN_PIXELS,
                self.pixels@.len() == SCREEN_PIXELS,
                forall|p: int| 0 <= p < k ==> !self.pixels@[p],
            decreases SCREEN_PIXELS - k,
        {
            self.pixels.set(k, false);
            k = k + 1;
        }
        self.dirty = true;
    }

    /// XOR-draw a sprite of up to fifteen rows at `(x, y)`, wrapping at the
    /// screen edges, and report whether any pixel was toggled from on to
    /// off.  The buffer is marked dirty.
    pub fn draw_sprite(&mut self, sprite: &Vec<u8>, x: u8, y: u8) -> (toggled_off: bool)
        requires
            old(self)@.wf(),
            sprite@.len() <= 15,
        ensures
            final(self)@.wf(),
            final(self)@.pixels =~= spec_draw(old(self)@.pixels, sprite@, x, y),
            final(self)@.dirty,
            toggled_off == spec_toggles_off(old(self)@.pixels, sprite@, x, y),
    {
        let ghost pix0 = self.pixels@;
        proof {
            lemma_partial_empty(pix0, sprite@, x, y);
        }
        let mut toggled_off = false;
        let mut dy: usize = 0;
        while dy < sprite.len()
            invariant
                self.pixels@.len() == SCREEN_PIXELS,
                pix0.len() == SCREEN_PIXELS,
                sprite@.len() <= 15,
                dy <= sprite@.len(),
                self.pixels@ =~= partial_draw(pix0, sprite@, x, y, dy as int, 0),
                toggled_off == toggles_upto(pix0, sprite@, x, y, dy as int, 0),
            decreases sprite@.len() - dy,
        {
            let row = sprite[dy];
            let mut dx: u8 = 0;
            while dx < 8
                invariant
                    self.pixels@.len() == SCREEN_PIXELS,
                    pix0.len() == SCREEN_PIXELS,
                    sprite@.len() <= 15,
                    dy < sprite@.len(),
                    row == sprite@[dy as int],
                    dx <= 8,
                    self.pixels@ =~= partial_draw(pix0, sprite@, x, y, dy as int, dx as int),
                    toggled_off == toggles_upto(pix0, sprite@, x, y, dy as int, dx as int),
                decreases 8 - dx,
            {
                proof {
                    lemma_partial_step(pix0, sprite@, x, y, dy as int, dx as int);
                }
                if (row >> (7 - dx)) & 1 == 1 {
                    proof {
                        lemma_pixel_index_bounds(x, y, dx as int, dy as int);
                    }
                    let px: usize = (x as usize + dx as usize) % SCREEN_WIDTH;
                    let py: usize = (y as usize + dy) % SCREEN_HEIGHT;
                    let idx: usize = py * SCREEN_WIDTH + px;
                    assert(idx == pixel_index(x, y, dx as int, dy as int));
                    assert(self.pixels@[idx as int] == pix0[idx as int]);
                    if self.pixels[idx] {
                        self.pixels.set(idx, false);
                        toggled_off = true;
                    } else {
                        self.pixels.set(idx, true);
                    }
                    proof {
                        assert(self.pixels@ =~= partial_draw(
                            pix0,
                            sprite@,
                            x,
                            y,
                            dy as int,
                            dx as int + 1,
                        ));
                    }
                } else {
                    proof {
                        assert(self.pixels@ =~= partial_draw(
                            pix0,
                            sprite@,
                            x,
                            y,
                            dy as int,
                            dx as int + 1,
                        ));
                    }
                }
                dx = dx + 1;
            }
            proof {
                lemma_partial_row_wrap(pix0, sprite@, x, y, dy as int);
                assert(self.pixels@ =~= partial_draw(pix0, sprite@, x, y, dy as int + 1, 0));
            }
            dy = dy + 1;
        }
        proof {
            lemma_partial_done(pix0, sprite@, x, y);
            assert(self.pixels@ =~= spec_draw(pix0, sprite@, x, y));
        }
        self.dirty = true;
        toggled_off
    }

    /// Whether the buffer changed since it was last presented.
    pub fn needs_presenting(&self) -> (dirty: bool)
        ensures
            dirty == self@.dirty,
    {
        self.dirty
    }

    /// Record that the host has presented the current grid.
    pub fn mark_presented(&mut self)
        ensures
            final(self)@.pixels == old(self)@.pixels,
            !final(self)@.dirty,
    {
        self.dirty = false;
    }

    /// Read one pixel of the grid.
    pub fn pixel(&self, x: usize, y: usize) -> (on: bool)
        requires
            self@.wf(),
            x < SCREEN_WIDTH,
            y < SCREEN_HEIGHT,
        ensures
            on == self@.pixels[y * SCREEN_WIDTH + x],
    {
        self.pixels[y * SCREEN_WIDTH + x]
    }
}

} // verus!
