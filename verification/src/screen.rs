//! The 64x32 monochrome display: XOR sprite compositing with per-pixel
//! wraparound and collision detection, plus dirty tracking so a host only
//! repaints the cells that changed.

use vstd::prelude::*;

verus! {

use vstd::pervasive::VecAdditionalExecFns;

/// Width of the display in pixels.
pub const SCREEN_WIDTH: usize = 64;

/// Height of the display in pixels.
pub const SCREEN_HEIGHT: usize = 32;

/// Number of cells in the flattened row-major pixel grid.
pub const SCREEN_CELLS: usize = 2048;

/// Mathematical model of the display: the flattened row-major pixel grid,
/// the matching dirty bits, and the pending-first-render flag.
#[verifier::ext_equal]
pub struct ScreenView {
    pub pixels: Seq<bool>,
    pub dirty: Seq<bool>,
    pub first_render: bool,
}

impl ScreenView {
    /// Both grids cover exactly the 64x32 display.
    pub open spec fn wf(self) -> bool {
        &&& self.pixels.len() == 2048
        &&& self.dirty.len() == 2048
    }
}

/// Index of pixel (x, y) in the flattened row-major grid.
pub open spec fn cell_index(x: int, y: int) -> int {
    y * 64 + x
}

/// Whether pixel `j` of a sprite row byte is lit; pixel 0 is the leftmost,
/// held in the most significant bit.
pub open spec fn sprite_bit(row: u8, j: int) -> bool {
    (row >> ((7 - j) as u8)) & 1 == 1
}

/// XOR one sprite bit into cell `i`, marking the cell dirty when its value
/// changes (exactly when the bit is set).
pub open spec fn xor_cell(s: ScreenView, i: int, bit: bool) -> ScreenView {
    ScreenView {
        pixels: s.pixels.update(i, s.pixels[i] ^ bit),
        dirty: if bit {
            s.dirty.update(i, true)
        } else {
            s.dirty
        },
        first_render: s.first_render,
    }
}

/// Composite pixels `j..8` of one sprite row byte onto display row `ty`,
/// each column wrapping modulo 64.  The second component reports whether
/// some pixel went from on to off.
pub open spec fn draw_row_from(s: ScreenView, x: int, ty: int, row: u8, j: int) -> (ScreenView,
    bool)
    decreases 8 - j,
{
    if j >= 8 {
        (s, false)
    } else {
        let i = cell_index((x + j) % 64, ty);
        let hit = s.pixels[i] && sprite_bit(row, j);
        let rest = draw_row_from(xor_cell(s, i, sprite_bit(row, j)), x, ty, row, j + 1);
        (rest.0, hit || rest.1)
    }
}

/// Composite sprite rows `i..` at origin (x, y); each row's y-coordinate
/// wraps modulo 32.
pub open spec fn draw_rows_from(s: ScreenView, x: int, y: int, rows: Seq<u8>, i: int) -> (
    ScreenView,
    bool,
)
    decreases rows.len() - i,
{
    if i >= rows.len() {
        (s, false)
    } else {
        let r = draw_row_from(s, x, (y + i) % 32, rows[i], 0);
        let rest = draw_rows_from(r.0, x, y, rows, i + 1);
        (rest.0, r.1 || rest.1)
    }
}

/// Composite a whole sprite by XOR at origin (x, y), every target pixel's
/// coordinates wrapping modulo 64 and 32; the second component is the
/// collision flag: whether some pixel went from on to off.
pub open spec fn spec_draw(s: ScreenView, x: int, y: int, rows: Seq<u8>) -> (ScreenView, bool) {
    draw_rows_from(s, x, y, rows, 0)
}

/// The cells a render pass repaints, in row-major order, starting at cell
/// `k`: every dirty cell, or every cell while a first render is pending.
pub open spec fn redraw_from(s: ScreenView, k: int) -> Seq<(usize, usize, bool)>
    decreases 2048 - k,
{
    if k < 0 || k >= 2048 {
        Seq::empty()
    } else {
        let rest = redraw_from(s, k + 1);
        if s.first_render || s.dirty[k] {
            seq![((k % 64) as usize, (k / 64) as usize, s.pixels[k])] + rest
        } else {
            rest
        }
    }
}

/// Read bit `index` (counted from the least significant bit) of a byte.
pub fn get_bit(value: u8, index: u8) -> (b: bool)
    requires
        index < 8,
    ensures
        b == ((value >> index) & 1 == 1),
{
    (value >> index) & 1 == 1
}

/// The 64x32 monochrome display with dirty tracking: the pixel values,
/// a matching dirty bit per pixel, and the pending-first-render flag that
/// forces the first pass to repaint everything.
pub struct Screen {
    pixels: Vec<bool>,
    dirty: Vec<bool>,
    first_render: bool,
}

impl View for Screen {
    type V = ScreenView;

    closed spec fn view(&self) -> ScreenView {
        ScreenView { pixels: self.pixels@, dirty: self.dirty@, first_render: self.first_render }
    }
}

impl Screen {
    /// A blank display: every pixel off, every cell marked so the first
    /// render repaints the whole grid.
    pub fn new() -> (s: Screen)
        ensures
            s@.wf(),
            s@.pixels == Seq::new(2048, |i: int| false),
            s@.dirty == Seq::new(2048, |i: int| true),
            s@.first_render,
    {
        let mut pixels: Vec<bool> = Vec::new();
        let mut dirty: Vec<bool> = Vec::new();
        let mut k: usize = 0;
        while k < SCREEN_CELLS
            invariant
                k <= 2048,
                pixels@.len() == k as int,
                dirty@.len() == k as int,
                forall|i: int| 0 <= i < k ==> !pixels@[i],
                forall|i: int| 0 <= i < k ==> dirty@[i],
            decreases 2048 - k,
        {
            pixels.push(false);
            dirty.push(true);
            k += 1;
        }
        proof {
            assert(pixels@ =~= Seq::new(2048, |i: int| false));
            assert(dirty@ =~= Seq::new(2048, |i: int| true));
        }
        Screen { pixels, dirty, first_render: true }
    }

    /// Read the pixel at (x, y).
    pub fn get_pixel(&self, x: usize, y: usize) -> (v: bool)
        requires
            self@.wf(),
            x < 64,
            y < 32,
        ensures
            v == self@.pixels[cell_index(x as int, y as int)],
    {
        self.pixels[y * 64 + x]
    }

    /// Overwrite the pixel at (x, y), recording a dirty bit when the value
    /// changes; reports whether the pixel went from on to off.
    pub fn set_pixel(&mut self, x: usize, y: usize, new_val: bool) -> (collided: bool)
        requires
            old(self)@.wf(),
            x < 64,
            y < 32,
        ensures
            ({
                let i = cell_index(x as int, y as int);
                &&& final(self)@.pixels == old(self)@.pixels.update(i, new_val)
                &&& final(self)@.dirty == (if old(self)@.pixels[i] != new_val {
                    old(self)@.dirty.update(i, true)
                } else {
                    old(self)@.dirty
                })
                &&& final(self)@.first_render == old(self)@.first_render
                &&& collided == (old(self)@.pixels[i] && !new_val)
                &&& final(self)@.wf()
            }),
    {
        let i = y * 64 + x;
        let original = self.pixels[i];
        let collided = original && !new_val;
        let changed = original != new_val;
        self.pixels.set(i, new_val);
        if changed {
            self.dirty.set(i, true);
        }
        collided
    }

    /// XOR a sprite bit into the pixel at (x, y); reports whether the pixel
    /// went from on to off.
    pub fn xor_pixel(&mut self, x: usize, y: usize, new_val: bool) -> (collided: bool)
        requires
            old(self)@.wf(),
            x < 64,
            y < 32,
        ensures
            final(self)@ == xor_cell(old(self)@, cell_index(x as int, y as int), new_val),
            collided == (old(self)@.pixels[cell_index(x as int, y as int)] && new_val),
            final(self)@.wf(),
    {
        let original = self.get_pixel(x, y);
        let xored = new_val ^ original;
        self.set_pixel(x, y, xored)
    }

    /// Composite a sprite by XOR at origin (x, y).  Each byte of `source`
    /// is one row of 8 pixels, leftmost pixel in the most significant bit;
    /// every target coordinate wraps modulo the display size.  Reports
    /// whether any pixel went from on to off.
    pub fn render_sprite(&mut self, x: usize, y: usize, source: &[u8]) -> (collided: bool)
        requires
            old(self)@.wf(),
        ensures
            final(self)@ == spec_draw(old(self)@, x as int, y as int, source@).0,
            collided == spec_draw(old(self)@, x as int, y as int, source@).1,
            final(self)@.wf(),
            final(self)@.first_render == old(self)@.first_render,
    {
        let mut collided = false;
        let mut i: usize = 0;
        while i < source.len()
            invariant
                i <= source@.len(),
                self@.wf(),
                self@.first_render == old(self)@.first_render,
                spec_draw(old(self)@, x as int, y as int, source@).0 == draw_rows_from(
                    self@,
                    x as int,
                    y as int,
                    source@,
                    i as int,
                ).0,
                spec_draw(old(self)@, x as int, y as int, source@).1 == (collided
                    || draw_rows_from(self@, x as int, y as int, source@, i as int).1),
            decreases source@.len() - i,
        {
            let row = source[i];
            let ty = (y % 32 + i % 32) % 32;
            proof {
                vstd::arithmetic::div_mod::lemma_add_mod_noop(y as int, i as int, 32);
                vstd::arithmetic::div_mod::lemma_mod_bound(y as int + i as int, 32);
                assert(ty as int == (y + i) % 32);
            }
            let ghost s_row = self@;
            let mut row_collided = false;
            let mut j: usize = 0;
            while j < 8
                invariant
                    j <= 8,
                    ty < 32,
                    self@.wf(),
                    self@.first_render == s_row.first_render,
                    draw_row_from(s_row, x as int, ty as int, row, 0).0 == draw_row_from(
                        self@,
                        x as int,
                        ty as int,
                        row,
                        j as int,
                    ).0,
                    draw_row_from(s_row, x as int, ty as int, row, 0).1 == (row_collided
                        || draw_row_from(self@, x as int, ty as int, row, j as int).1),
                decreases 8 - j,
            {
                let tx = (x % 64 + j) % 64;
                proof {
                    vstd::arithmetic::div_mod::lemma_add_mod_noop(x as int, j as int, 64);
                    vstd::arithmetic::div_mod::lemma_mod_bound(x as int + j as int, 64);
                    assert(tx as int == (x + j) % 64);
                }
                let bit = get_bit(row, (7 - j) as u8);
                proof {
                    assert(bit == sprite_bit(row, j as int));
                }
                let ghost before = self@;
                let c = self.xor_pixel(tx, ty, bit);
                row_collided = row_collided || c;
                proof {
                    assert(cell_index(tx as int, ty as int) == cell_index(
                        (x + j) % 64,
                        ty as int,
                    ));
                    assert(draw_row_from(before, x as int, ty as int, row, j as int).0
                        == draw_row_from(self@, x as int, ty as int, row, j as int + 1).0);
                    assert(draw_row_from(before, x as int, ty as int, row, j as int).1 == (c
                        || draw_row_from(self@, x as int, ty as int, row, j as int + 1).1));
                }
                j += 1;
            }
            proof {
                assert(draw_row_from(self@, x as int, ty as int, row, 8) == (self@, false));
                assert(draw_row_from(s_row, x as int, ty as int, row, 0).0 == self@);
                assert(draw_row_from(s_row, x as int, ty as int, row, 0).1 == row_collided);
                assert(draw_rows_from(s_row, x as int, y as int, source@, i as int).0
                    == draw_rows_from(self@, x as int, y as int, source@, i as int + 1).0);
                assert(draw_rows_from(s_row, x as int, y as int, source@, i as int).1 == (
                row_collided || draw_rows_from(self@, x as int, y as int, source@, i as int
                    + 1).1));
            }
            collided = collided || row_collided;
            i += 1;
        }
        proof {
            assert(draw_rows_from(self@, x as int, y as int, source@, i as int) == (self@, false));
        }
        collided
    }

    /// Switch every pixel off and mark the whole grid dirty.
    pub fn clear_screen(&mut self)
        requires
            old(self)@.wf(),
        ensures
            final(self)@.pixels == Seq::new(2048, |i: int| false),
            final(self)@.dirty == Seq::new(2048, |i: int| true),
            final(self)@.first_render == old(self)@.first_render,
            final(self)@.wf(),
    {
        let mut k: usize = 0;
        while k < SCREEN_CELLS
            invariant
                k <= 2048,
                self@.wf(),
                self@.first_render == old(self)@.first_render,
                forall|i: int| 0 <= i < k ==> !self@.pixels[i],
                forall|i: int| 0 <= i < k ==> self@.dirty[i],
            decreases 2048 - k,
        {
            self.pixels.set(k, false);
            self.dirty.set(k, true);
            k += 1;
        }
        proof {
            assert(self@.pixels =~= Seq::new(2048, |i: int| false));
            assert(self@.dirty =~= Seq::new(2048, |i: int| true));
        }
    }

    /// Run the bookkeeping part of a render pass: collect the cells to be
    /// repainted, as (x, y, on) triples in row-major order, clear every
    /// dirty bit, and retire a pending first render.  The host paints the
    /// returned cells; everything else on screen is already up to date.
    pub fn render_pixels(&mut self) -> (cells: Vec<(usize, usize, bool)>)
        requires
            old(self)@.wf(),
        ensures
            cells@ == redraw_from(old(self)@, 0),
            final(self)@.pixels == old(self)@.pixels,
            final(self)@.dirty == Seq::new(2048, |i: int| false),
            !final(self)@.first_render,
            final(self)@.wf(),
    {
        let mut cells: Vec<(usize, usize, bool)> = Vec::new();
        let mut k: usize = 0;
        while k < SCREEN_CELLS
            invariant
                k <= 2048,
                self@.wf(),
                self@.pixels == old(self)@.pixels,
                self@.first_render == old(self)@.first_render,
                forall|i: int| 0 <= i < k ==> !self@.dirty[i],
                forall|i: int| k <= i < 2048 ==> self@.dirty[i] == old(self)@.dirty[i],
                cells@ + redraw_from(old(self)@, k as int) == redraw_from(old(self)@, 0),
            decreases 2048 - k,
        {
            if self.first_render || self.dirty[k] {
                let cell = (k % 64, k / 64, self.pixels[k]);
                cells.push(cell);
                proof {
                    assert(cells@ + redraw_from(old(self)@, k as int + 1) =~= redraw_from(
                        old(self)@,
                        0,
                    ));
                }
            } else {
                proof {
                    assert(redraw_from(old(self)@, k as int) == redraw_from(
                        old(self)@,
                        k as int + 1,
                    ));
                }
            }
            self.dirty.set(k, false);
            k += 1;
        }
        self.first_render = false;
        proof {
            assert(redraw_from(old(self)@, 2048) == Seq::<(usize, usize, bool)>::empty());
            assert(cells@ =~= redraw_from(old(self)@, 0));
            assert(self@.dirty =~= Seq::new(2048, |i: int| false));
        }
        cells
    }
}

impl Default for Screen {
    /// Same as `Screen::new`.
    fn default() -> (s: Self)
        ensures
            s@.wf(),
            s@.pixels == Seq::new(2048, |i: int| false),
            s@.dirty == Seq::new(2048, |i: int| true),
            s@.first_render,
    {
        Screen::new()
    }
}

} // verus!
