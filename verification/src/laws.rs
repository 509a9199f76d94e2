//! The laws of the machine, stated and proved against the model: the
//! arithmetic flag semantics, the XOR round trip of sprite drawing, the
//! exact meaning of the collision flag, per-pixel wraparound, and the
//! binary-coded-decimal store.

use vstd::prelude::*;

verus! {

use crate::exec::spec_execute;
use crate::isa::Instr;
use crate::screen::{cell_index, draw_row_from, draw_rows_from, spec_draw, sprite_bit, xor_cell,
    ScreenView};
use crate::state::StateView;
use vstd::arithmetic::div_mod::{lemma_add_mod_noop, lemma_mod_bound, lemma_mod_equivalence,
    lemma_small_mod};

/// Law: register add sets the result register to (a + b) mod 256 and the
/// flag register to 1 exactly when a + b >= 256.  When the result
/// register is the flag register itself, the flag wins.
pub proof fn lemma_register_add(s: StateView, x: u8, y: u8, rand: u8)
    requires
        s.wf(),
        x < 16,
        y < 16,
    ensures
        ({
            let a = s.registers[x as int];
            let b = s.registers[y as int];
            let r = spec_execute(s, Instr::Add(x, y), rand);
            &&& r is Ok
            &&& r->Ok_0.registers[15] == (if a + b >= 256 {
                1u8
            } else {
                0u8
            })
            &&& x != 15 ==> r->Ok_0.registers[x as int] == ((a + b) % 256) as u8
        }),
{
}

/// Law: register subtract sets the result register to (a - b) mod 256
/// and the flag register to 1 exactly when a >= b, meaning no borrow
/// occurred.  When the result register is the flag register itself, the
/// flag wins.
pub proof fn lemma_register_sub(s: StateView, x: u8, y: u8, rand: u8)
    requires
        s.wf(),
        x < 16,
        y < 16,
    ensures
        ({
            let a = s.registers[x as int];
            let b = s.registers[y as int];
            let r = spec_execute(s, Instr::Sub(x, y), rand);
            &&& r is Ok
            &&& r->Ok_0.registers[15] == (if a >= b {
                1u8
            } else {
                0u8
            })
            &&& x != 15 ==> r->Ok_0.registers[x as int] == ((a - b) % 256) as u8
        }),
{
}

/// Law: the binary-coded-decimal store writes (v / 100, (v / 10) mod 10,
/// v mod 10) to the three memory cells at the address register.
pub proof fn lemma_bcd_store(s: StateView, x: u8, rand: u8)
    requires
        s.wf(),
        x < 16,
        s.address_register + 2 <= 4095,
    ensures
        ({
            let v = s.registers[x as int];
            let a = s.address_register as int;
            let r = spec_execute(s, Instr::StoreBcd(x), rand);
            &&& r is Ok
            &&& r->Ok_0.memory[a] == (v / 100) as u8
            &&& r->Ok_0.memory[a + 1] == ((v / 10) % 10) as u8
            &&& r->Ok_0.memory[a + 2] == (v % 10) as u8
        }),
{
}

/// The combined sprite bit that pixels j.. of one row byte XOR into the
/// cell `p` of display row `ty`.
pub open spec fn row_bit_at(x: int, ty: int, row: u8, j: int, p: int) -> bool
    decreases 8 - j,
{
    if j >= 8 {
        false
    } else {
        (cell_index((x + j) % 64, ty) == p && sprite_bit(row, j)) ^ row_bit_at(
            x,
            ty,
            row,
            j + 1,
            p,
        )
    }
}

/// The combined sprite bit that rows i.. of a sprite XOR into cell `p`.
pub open spec fn sprite_bit_at(x: int, y: int, rows: Seq<u8>, i: int, p: int) -> bool
    decreases rows.len() - i,
{
    if i >= rows.len() {
        false
    } else {
        row_bit_at(x, (y + i) % 32, rows[i], 0, p) ^ sprite_bit_at(x, y, rows, i + 1, p)
    }
}

/// Drawing one row changes each pixel by exactly the combined sprite bit
/// aimed at it, and touches nothing else about the grid sizes.
proof fn lemma_row_pixels(s: ScreenView, x: int, ty: int, row: u8, j: int, p: int)
    requires
        s.wf(),
        0 <= ty < 32,
        0 <= p < 2048,
    ensures
        draw_row_from(s, x, ty, row, j).0.wf(),
        draw_row_from(s, x, ty, row, j).0.first_render == s.first_render,
        draw_row_from(s, x, ty, row, j).0.pixels[p] == s.pixels[p] ^ row_bit_at(
            x,
            ty,
            row,
            j,
            p,
        ),
    decreases 8 - j,
{
    if j >= 8 {
    } else {
        lemma_mod_bound(x + j, 64);
        let i = cell_index((x + j) % 64, ty);
        let s1 = xor_cell(s, i, sprite_bit(row, j));
        assert(0 <= i < 2048);
        lemma_row_pixels(s1, x, ty, row, j + 1, p);
    }
}

/// Drawing a sprite changes each pixel by exactly the combined sprite
/// bit aimed at it.
proof fn lemma_rows_pixels(s: ScreenView, x: int, y: int, rows: Seq<u8>, i: int, p: int)
    requires
        s.wf(),
        0 <= p < 2048,
    ensures
        draw_rows_from(s, x, y, rows, i).0.wf(),
        draw_rows_from(s, x, y, rows, i).0.first_render == s.first_render,
        draw_rows_from(s, x, y, rows, i).0.pixels[p] == s.pixels[p] ^ sprite_bit_at(
            x,
            y,
            rows,
            i,
            p,
        ),
    decreases rows.len() - i,
{
    if i >= rows.len() {
    } else {
        lemma_mod_bound(y + i, 32);
        let ty = (y + i) % 32;
        let r = draw_row_from(s, x, ty, rows[i], 0);
        lemma_row_pixels(s, x, ty, rows[i], 0, p);
        lemma_rows_pixels(r.0, x, y, rows, i + 1, p);
    }
}

/// Law: a sprite draw changes pixel p exactly by the combined sprite bit
/// aimed at it — XOR composition, each target coordinate wrapped modulo
/// the display size, as `sprite_bit_at` spells out.
pub proof fn lemma_draw_pixels(s: ScreenView, x: int, y: int, rows: Seq<u8>, p: int)
    requires
        s.wf(),
        0 <= p < 2048,
    ensures
        spec_draw(s, x, y, rows).0.wf(),
        spec_draw(s, x, y, rows).0.first_render == s.first_render,
        spec_draw(s, x, y, rows).0.pixels[p] == s.pixels[p] ^ sprite_bit_at(x, y, rows, 0, p),
{
    lemma_rows_pixels(s, x, y, rows, 0, p);
}

/// Law: XOR-drawing the same sprite twice at the same origin restores
/// the pixel state exactly, whatever was on screen before.
pub proof fn lemma_draw_twice_restores(s: ScreenView, x: int, y: int, rows: Seq<u8>)
    requires
        s.wf(),
    ensures
        spec_draw(spec_draw(s, x, y, rows).0, x, y, rows).0.pixels == s.pixels,
{
    let s1 = spec_draw(s, x, y, rows).0;
    let s2 = spec_draw(s1, x, y, rows).0;
    assert forall|p: int| 0 <= p < 2048 implies s2.pixels[p] == s.pixels[p] by {
        lemma_draw_pixels(s, x, y, rows, p);
        lemma_draw_pixels(s1, x, y, rows, p);
    }
    lemma_draw_pixels(s, x, y, rows, 0);
    lemma_draw_pixels(s1, x, y, rows, 0);
    assert(s2.pixels =~= s.pixels);
}

/// Two offsets less than the modulus apart land on different residues.
proof fn lemma_mod_distinct(c: int, d1: int, d2: int, m: int)
    requires
        0 <= d1 < d2,
        d2 - d1 < m,
        0 < m,
    ensures
        (c + d1) % m != (c + d2) % m,
{
    lemma_mod_equivalence(c + d2, c + d1, m);
    lemma_small_mod((d2 - d1) as nat, m as nat);
}

/// A row XORs something into cell p only if one of its own pixels is
/// aimed there with its sprite bit set.
proof fn lemma_row_bit_covered(x: int, ty: int, row: u8, j: int, p: int)
    requires
        0 <= j,
        row_bit_at(x, ty, row, j, p),
    ensures
        exists|j2: int|
            j <= j2 < 8 && p == cell_index((x + j2) % 64, ty) && sprite_bit(row, j2),
    decreases 8 - j,
{
    let cond = cell_index((x + j) % 64, ty) == p && sprite_bit(row, j);
    if cond {
        assert(j <= j < 8 && p == cell_index((x + j) % 64, ty) && sprite_bit(row, j));
        assert(exists|j2: int|
            j <= j2 < 8 && p == cell_index((x + j2) % 64, ty) && sprite_bit(row, j2));
    } else {
        assert(row_bit_at(x, ty, row, j + 1, p));
        lemma_row_bit_covered(x, ty, row, j + 1, p);
        let j2 = choose|j2: int|
            j + 1 <= j2 < 8 && p == cell_index((x + j2) % 64, ty) && sprite_bit(row, j2);
        assert(j <= j2 < 8 && p == cell_index((x + j2) % 64, ty) && sprite_bit(row, j2));
    }
}

/// A row only touches cells of its own display row.
proof fn lemma_row_bit_in_row(x: int, ty: int, row: u8, j: int, p: int)
    requires
        0 <= j,
        row_bit_at(x, ty, row, j, p),
    ensures
        ty * 64 <= p < ty * 64 + 64,
{
    lemma_row_bit_covered(x, ty, row, j, p);
    let j2 = choose|j2: int|
        j <= j2 < 8 && p == cell_index((x + j2) % 64, ty) && sprite_bit(row, j2);
    lemma_mod_bound(x + j2, 64);
}

/// Pixels of one row before position j never aim at the cell a later
/// position aims at: the eight columns are distinct modulo 64.
proof fn lemma_row_bit_not_target(x: int, ty: int, row: u8, j: int, jt: int)
    requires
        0 <= jt < j,
    ensures
        !row_bit_at(x, ty, row, j, cell_index((x + jt) % 64, ty)),
{
    let p = cell_index((x + jt) % 64, ty);
    if row_bit_at(x, ty, row, j, p) {
        lemma_row_bit_covered(x, ty, row, j, p);
        let j2 = choose|j2: int|
            j <= j2 < 8 && p == cell_index((x + j2) % 64, ty) && sprite_bit(row, j2);
        lemma_mod_bound(x + jt, 64);
        lemma_mod_bound(x + j2, 64);
        assert((x + jt) % 64 == (x + j2) % 64);
        lemma_mod_distinct(x, jt, j2, 64);
        assert(false);
    }
}

/// Whether pixels j.. of one row XOR a set bit into some lit cell.
pub open spec fn row_hits_lit(s: ScreenView, x: int, ty: int, row: u8, j: int) -> bool {
    exists|p: int| 0 <= p < 2048 && s.pixels[p] && #[trigger] row_bit_at(x, ty, row, j, p)
}

/// Whether the sprite rows i.. XOR a set bit into some lit cell.
pub open spec fn draw_hits_lit(s: ScreenView, x: int, y: int, rows: Seq<u8>, i: int) -> bool {
    exists|p: int| 0 <= p < 2048 && s.pixels[p] && #[trigger] sprite_bit_at(x, y, rows, i, p)
}

/// The collision bit of one row draw is set exactly when a set sprite
/// bit lands on a lit cell.
proof fn lemma_row_collision(s: ScreenView, x: int, ty: int, row: u8, j: int)
    requires
        s.wf(),
        0 <= ty < 32,
        0 <= j <= 8,
    ensures
        draw_row_from(s, x, ty, row, j).1 == row_hits_lit(s, x, ty, row, j),
    decreases 8 - j,
{
    if j >= 8 {
        assert(forall|p: int| !(#[trigger] row_bit_at(x, ty, row, j, p)));
    } else {
        lemma_mod_bound(x + j, 64);
        let i = cell_index((x + j) % 64, ty);
        let bit = sprite_bit(row, j);
        let hit = s.pixels[i] && bit;
        let s1 = xor_cell(s, i, bit);
        let rest = draw_row_from(s1, x, ty, row, j + 1);
        lemma_row_collision(s1, x, ty, row, j + 1);
        lemma_row_bit_not_target(x, ty, row, j + 1, j);
        assert(!row_bit_at(x, ty, row, j + 1, i));
        if hit {
            assert(row_bit_at(x, ty, row, j, i));
            assert(row_hits_lit(s, x, ty, row, j));
        } else if rest.1 {
            let pw = choose|p: int|
                0 <= p < 2048 && s1.pixels[p] && #[trigger] row_bit_at(x, ty, row, j + 1, p);
            assert(pw != i);
            assert(s.pixels[pw]);
            assert(row_bit_at(x, ty, row, j, pw));
            assert(row_hits_lit(s, x, ty, row, j));
        }
        if row_hits_lit(s, x, ty, row, j) {
            let pw = choose|p: int|
                0 <= p < 2048 && s.pixels[p] && #[trigger] row_bit_at(x, ty, row, j, p);
            if pw == i {
                assert(bit);
                assert(hit);
            } else {
                assert(s1.pixels[pw]);
                assert(row_bit_at(x, ty, row, j + 1, pw));
                assert(row_hits_lit(s1, x, ty, row, j + 1));
            }
        }
    }
}

/// Whether the display row `(y + i2) mod 32` holds cell p.
pub open spec fn covers_row(y: int, i2: int, p: int) -> bool {
    ((y + i2) % 32) * 64 <= p < ((y + i2) % 32) * 64 + 64
}

/// A sprite XORs something into cell p only from a row whose wrapped
/// display row holds p.
proof fn lemma_sprite_bit_in_rows(x: int, y: int, rows: Seq<u8>, i: int, p: int)
    requires
        0 <= i,
        sprite_bit_at(x, y, rows, i, p),
    ensures
        exists|i2: int| i <= i2 < rows.len() && #[trigger] covers_row(y, i2, p),
    decreases rows.len() - i,
{
    let ty = (y + i) % 32;
    if row_bit_at(x, ty, rows[i], 0, p) {
        lemma_row_bit_in_row(x, ty, rows[i], 0, p);
        assert(covers_row(y, i, p));
        assert(i <= i < rows.len() && covers_row(y, i, p));
    } else {
        assert(sprite_bit_at(x, y, rows, i + 1, p));
        lemma_sprite_bit_in_rows(x, y, rows, i + 1, p);
        let i2 = choose|i2: int| i + 1 <= i2 < rows.len() && #[trigger] covers_row(y, i2, p);
        assert(i <= i2 < rows.len() && covers_row(y, i2, p));
    }
}

/// Rows past index `it` of a sprite of at most 32 rows never touch the
/// display row of row `it`: the wrapped row coordinates are distinct.
proof fn lemma_sprite_bit_not_row(x: int, y: int, rows: Seq<u8>, i: int, it: int, p: int)
    requires
        rows.len() <= 32,
        0 <= it < i,
        covers_row(y, it, p),
    ensures
        !sprite_bit_at(x, y, rows, i, p),
{
    if sprite_bit_at(x, y, rows, i, p) {
        lemma_sprite_bit_in_rows(x, y, rows, i, p);
        let i2 = choose|i2: int| i <= i2 < rows.len() && #[trigger] covers_row(y, i2, p);
        lemma_mod_bound(y + it, 32);
        lemma_mod_bound(y + i2, 32);
        assert((y + it) % 32 == (y + i2) % 32);
        lemma_mod_distinct(y, it, i2, 32);
        assert(false);
    }
}

/// The collision bit of a sprite draw of at most 32 rows is set exactly
/// when a set sprite bit lands on a lit cell.
proof fn lemma_rows_collision(s: ScreenView, x: int, y: int, rows: Seq<u8>, i: int)
    requires
        s.wf(),
        rows.len() <= 32,
        0 <= i <= rows.len(),
    ensures
        draw_rows_from(s, x, y, rows, i).1 == draw_hits_lit(s, x, y, rows, i),
    decreases rows.len() - i,
{
    if i >= rows.len() {
        assert(forall|p: int| !(#[trigger] sprite_bit_at(x, y, rows, i, p)));
    } else {
        lemma_mod_bound(y + i, 32);
        let ty = (y + i) % 32;
        let r = draw_row_from(s, x, ty, rows[i], 0);
        let rest = draw_rows_from(r.0, x, y, rows, i + 1);
        lemma_row_pixels(s, x, ty, rows[i], 0, 0);
        lemma_row_collision(s, x, ty, rows[i], 0);
        lemma_rows_collision(r.0, x, y, rows, i + 1);
        // A cell the later rows aim at keeps its value through this row.
        assert forall|p: int|
            0 <= p < 2048 && #[trigger] sprite_bit_at(x, y, rows, i + 1, p) implies r.0.pixels[p]
            == s.pixels[p] && !row_bit_at(x, ty, rows[i], 0, p) by {
            if row_bit_at(x, ty, rows[i], 0, p) {
                lemma_row_bit_in_row(x, ty, rows[i], 0, p);
                assert(covers_row(y, i, p));
                lemma_sprite_bit_not_row(x, y, rows, i + 1, i, p);
                assert(false);
            }
            lemma_row_pixels(s, x, ty, rows[i], 0, p);
        }
        if r.1 {
            let pw = choose|p: int|
                0 <= p < 2048 && s.pixels[p] && #[trigger] row_bit_at(x, ty, rows[i], 0, p);
            lemma_row_bit_in_row(x, ty, rows[i], 0, pw);
            assert(covers_row(y, i, pw));
            lemma_sprite_bit_not_row(x, y, rows, i + 1, i, pw);
            assert(sprite_bit_at(x, y, rows, i, pw));
            assert(draw_hits_lit(s, x, y, rows, i));
        } else if rest.1 {
            let pw = choose|p: int|
                0 <= p < 2048 && r.0.pixels[p] && #[trigger] sprite_bit_at(x, y, rows, i + 1, p);
            assert(s.pixels[pw]);
            assert(sprite_bit_at(x, y, rows, i, pw));
            assert(draw_hits_lit(s, x, y, rows, i));
        }
        if draw_hits_lit(s, x, y, rows, i) {
            let pw = choose|p: int|
                0 <= p < 2048 && s.pixels[p] && #[trigger] sprite_bit_at(x, y, rows, i, p);
            if row_bit_at(x, ty, rows[i], 0, pw) {
                assert(row_hits_lit(s, x, ty, rows[i], 0));
            } else {
                assert(sprite_bit_at(x, y, rows, i + 1, pw));
                assert(r.0.pixels[pw] == s.pixels[pw]);
                assert(draw_hits_lit(r.0, x, y, rows, i + 1));
            }
        }
    }
}

/// Law: for a sprite of at most 32 rows — so that every target pixel is
/// distinct, as for every sprite the instruction set can draw — the
/// collision flag is set if and only if at least one target pixel goes
/// from on to off: some lit cell receives a set sprite bit.
pub proof fn lemma_draw_collision_iff(s: ScreenView, x: int, y: int, rows: Seq<u8>)
    requires
        s.wf(),
        rows.len() <= 32,
    ensures
        spec_draw(s, x, y, rows).1 == draw_hits_lit(s, x, y, rows, 0),
{
    lemma_rows_collision(s, x, y, rows, 0);
}

/// Law: drawing onto an all-off display never sets the collision flag,
/// whatever the sprite holds (at most 32 rows, as the instruction set
/// guarantees).
pub proof fn lemma_draw_all_off_no_collision(s: ScreenView, x: int, y: int, rows: Seq<u8>)
    requires
        s.wf(),
        rows.len() <= 32,
        forall|p: int| 0 <= p < 2048 ==> !s.pixels[p],
    ensures
        !spec_draw(s, x, y, rows).1,
{
    lemma_draw_collision_iff(s, x, y, rows);
}

/// One row lands on the same cells whether drawn at x or at x mod 64.
proof fn lemma_row_wraps(s: ScreenView, x: int, ty: int, row: u8, j: int)
    requires
        0 <= j,
    ensures
        draw_row_from(s, x, ty, row, j) == draw_row_from(s, x % 64, ty, row, j),
    decreases 8 - j,
{
    if j < 8 {
        lemma_small_mod(j as nat, 64);
        lemma_add_mod_noop(x, j, 64);
        lemma_mod_bound(x, 64);
        lemma_small_mod((x % 64) as nat, 64);
        lemma_add_mod_noop(x % 64, j, 64);
        assert((x + j) % 64 == ((x % 64) + j) % 64);
        let i = cell_index((x + j) % 64, ty);
        let s1 = xor_cell(s, i, sprite_bit(row, j));
        lemma_row_wraps(s1, x, ty, row, j + 1);
    }
}

/// A sprite lands on the same cells whether drawn at (x, y) or at the
/// wrapped origin.
proof fn lemma_rows_wraps(s: ScreenView, x: int, y: int, rows: Seq<u8>, i: int)
    requires
        0 <= i,
    ensures
        draw_rows_from(s, x, y, rows, i) == draw_rows_from(s, x % 64, y % 32, rows, i),
    decreases rows.len() - i,
{
    if i < rows.len() {
        lemma_add_mod_noop(y, i, 32);
        lemma_mod_bound(y, 32);
        lemma_small_mod((y % 32) as nat, 32);
        lemma_add_mod_noop(y % 32, i, 32);
        assert((y + i) % 32 == ((y % 32) + i) % 32);
        let ty = (y + i) % 32;
        lemma_row_wraps(s, x, ty, rows[i], 0);
        let r = draw_row_from(s, x, ty, rows[i], 0);
        lemma_rows_wraps(r.0, x, y, rows, i + 1);
    }
}

/// Law: wraparound — each target pixel's coordinates wrap modulo 64 and
/// 32, so a draw at any origin is the draw at the wrapped origin.
pub proof fn lemma_draw_wraps(s: ScreenView, x: int, y: int, rows: Seq<u8>)
    ensures
        spec_draw(s, x, y, rows) == spec_draw(s, x % 64, y % 32, rows),
{
    lemma_rows_wraps(s, x, y, rows, 0);
}

} // verus!
