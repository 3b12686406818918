//! The monochrome framebuffer: a 64-by-32 grid of boolean pixels with a
//! dirty flag, and the specification of XOR sprite composition over it.

use vstd::prelude::*;

verus! {

/// The grid index of the pixel at column `x`, row `y`, with both
/// coordinates wrapped: drawing never indexes outside the grid.
pub open spec fn pix_index(x: int, y: int) -> int {
    (y % 32) * 64 + (x % 64)
}

/// The all-off grid.
pub open spec fn blank_grid() -> Seq<bool> {
    Seq::new(2048, |i: int| false)
}

/// The `j`-th bit of sprite row byte `b`, most significant bit first.
pub open spec fn sprite_bit(b: u8, j: int) -> bool {
    (b >> ((7 - j) as u8)) & 1 == 1
}

/// `g` with the sprite bit `b` composited by XOR into the wrapped pixel at
/// `(x, y)`: a set bit flips the pixel, a clear bit leaves it alone.
pub open spec fn toggled(g: Seq<bool>, x: int, y: int, b: bool) -> Seq<bool> {
    g.update(pix_index(x, y), g[pix_index(x, y)] != b)
}

/// `g` after the first `j` bits of sprite row byte `b` were composited in,
/// the row starting at column `x0` of row `y`.
pub open spec fn row_drawn(g: Seq<bool>, b: u8, x0: int, y: int, j: int) -> Seq<bool>
    decreases j,
{
    if j <= 0 {
        g
    } else {
        toggled(row_drawn(g, b, x0, y, j - 1), x0 + (j - 1), y, sprite_bit(b, j - 1))
    }
}

/// `g` after the first `r` rows of the sprite stored at memory address `i0`
/// were drawn with their top-left corner at `(x0, y0)`.
pub open spec fn sprite_drawn(
    g: Seq<bool>,
    m: Seq<u8>,
    i0: int,
    x0: int,
    y0: int,
    r: int,
) -> Seq<bool>
    decreases r,
{
    if r <= 0 {
        g
    } else {
        row_drawn(sprite_drawn(g, m, i0, x0, y0, r - 1), m[i0 + (r - 1)], x0, y0 + (r - 1), 8)
    }
}

/// Whether any of the first `j` bits of sprite row byte `b` is set.
pub open spec fn row_any_set(b: u8, j: int) -> bool
    decreases j,
{
    j > 0 && (sprite_bit(b, j - 1) || row_any_set(b, j - 1))
}

/// Whether any bit is set in the first `r` sprite rows at address `i0`.
pub open spec fn sprite_any_set(m: Seq<u8>, i0: int, r: int) -> bool
    decreases r,
{
    r > 0 && (row_any_set(m[i0 + (r - 1)], 8) || sprite_any_set(m, i0, r - 1))
}

/// One monochrome framebuffer. Pixels are stored row-major: the pixel at
/// column `x`, row `y` lives at grid index `y * 64 + x`.
pub struct Display {
    vram: Vec<bool>,
    dirty: bool,
}

impl Display {
    /// The pixel grid, row-major, 2048 entries.
    pub closed spec fn grid(self) -> Seq<bool> {
        self.vram@
    }

    /// Whether a drawing or clear operation ran since the flag was last reset.
    pub closed spec fn dirty_flag(self) -> bool {
        self.dirty
    }

    pub open spec fn wf(self) -> bool {
        self.grid().len() == 2048
    }

    /// A fresh framebuffer: every pixel off, nothing to present yet.
    pub fn new() -> (d: Display)
        ensures
            d.wf(),
            d.grid() == blank_grid(),
            !d.dirty_flag(),
    {
        let mut vram: Vec<bool> = Vec::new();
        let mut k: usize = 0;
        while k < 2048
            invariant
                k <= 2048,
                vram@.len() == k,
                forall|i: int| 0 <= i < k ==> !vram@[i],
            decreases 2048 - k,
        {
            vram.push(false);
            k = k + 1;
        }
        proof {
            assert(vram@ =~= blank_grid());
        }
        Display { vram, dirty: false }
    }

    /// Reports the dirty flag without clearing it.
    pub fn is_dirty(&self) -> (r: bool)
        ensures
            r == self.dirty_flag(),
    {
        self.dirty
    }

    /// Clears the dirty flag once the host has consumed a frame; the pixels
    /// are left untouched.
    pub fn reset_dirty_flag(&mut self)
        ensures
            final(self).grid() == old(self).grid(),
            !final(self).dirty_flag(),
    {
        self.dirty = false;
    }

    /// Reads one pixel; the coordinates are wrapped like a drawing target.
    pub fn pixel(&self, x: u8, y: u8) -> (r: bool)
        requires
            self.wf(),
        ensures
            r == self.grid()[pix_index(x as int, y as int)],
    {
        let xi = (x % 64) as usize;
        let yi = (y % 32) as usize;
        self.vram[yi * 64 + xi]
    }

    /// Composites one sprite bit by XOR into the wrapped target pixel and
    /// reports whether the stored value changed. Every call marks the
    /// framebuffer dirty.
    pub fn set_pixel_xor(&mut self, x: u8, y: u8, pixel: bool) -> (flipped: bool)
        requires
            old(self).wf(),
        ensures
            final(self).wf(),
            final(self).grid() == toggled(old(self).grid(), x as int, y as int, pixel),
            flipped == (final(self).grid()[pix_index(x as int, y as int)]
                != old(self).grid()[pix_index(x as int, y as int)]),
            final(self).dirty_flag(),
    {
        let xi = (x % 64) as usize;
        let yi = (y % 32) as usize;
        let idx = yi * 64 + xi;
        let current = self.vram[idx];
        let updated = current != pixel;
        self.vram[idx] = updated;
        self.dirty = true;
        current != updated
    }

    /// Turns every pixel off and marks the framebuffer dirty, whatever the
    /// grid held before.
    pub fn clear(&mut self)
        requires
            old(self).wf(),
        ensures
            final(self).wf(),
            final(self).grid() == blank_grid(),
            final(self).dirty_flag(),
    {
        let mut k: usize = 0;
        while k < 2048
            invariant
                k <= 2048,
                self.wf(),
                forall|i: int| 0 <= i < k ==> !self.grid()[i],
            decreases 2048 - k,
        {
            self.vram[k] = false;
            k = k + 1;
        }
        self.dirty = true;
        proof {
            assert(self.grid() =~= blank_grid());
        }
    }
}

/// Shifting a point by less than one wrap stride moves it to a different
/// wrapped cell.
proof fn lemma_mod_shift_neq(a: int, d: int, m: int)
    requires
        0 < d < m,
    ensures
        a % m != (a + d) % m,
{
    let r = a % m;
    vstd::arithmetic::div_mod::lemma_add_mod_noop(a, d, m);
    vstd::arithmetic::div_mod::lemma_small_mod(d as nat, m as nat);
    if r + d < m {
        vstd::arithmetic::div_mod::lemma_small_mod((r + d) as nat, m as nat);
    } else {
        vstd::arithmetic::div_mod::lemma_mod_multiples_vanish(1, r + d - m, m);
        vstd::arithmetic::div_mod::lemma_small_mod((r + d - m) as nat, m as nat);
    }
}

/// Two different bit positions of one sprite — column `c1` of row `k1`
/// and column `c2` of row `k2`, with at most fifteen rows — always land
/// on two different wrapped cells.
proof fn lemma_cells_distinct(x0: int, y0: int, c1: int, k1: int, c2: int, k2: int)
    requires
        0 <= c1 < 8,
        0 <= c2 < 8,
        0 <= k1 < 32,
        0 <= k2 < 32,
        k1 != k2 || c1 != c2,
    ensures
        pix_index(x0 + c1, y0 + k1) != pix_index(x0 + c2, y0 + k2),
{
    if k1 == k2 {
        if c1 < c2 {
            lemma_mod_shift_neq(x0 + c1, c2 - c1, 64);
        } else {
            lemma_mod_shift_neq(x0 + c2, c1 - c2, 64);
        }
    } else {
        if k1 < k2 {
            lemma_mod_shift_neq(y0 + k1, k2 - k1, 32);
        } else {
            lemma_mod_shift_neq(y0 + k2, k1 - k2, 32);
        }
    }
}

/// Whether `idx` is one of the wrapped cells of the first `j` columns of
/// the sprite row at `(x0, y)`.
pub open spec fn row_covers(x0: int, y: int, j: int, idx: int) -> bool {
    exists|c: int| 0 <= c < j && idx == #[trigger] pix_index(x0 + c, y)
}

/// Whether `idx` is one of the wrapped cells of the first `r` rows of the
/// sprite drawn at `(x0, y0)`.
pub open spec fn sprite_covers(x0: int, y0: int, r: int, idx: int) -> bool {
    exists|k: int, c: int| 0 <= k < r && 0 <= c < 8 && idx == #[trigger] pix_index(x0 + c, y0 + k)
}

/// Cell-by-cell description of one drawn sprite row: each of its eight
/// wrapped target cells takes its old value XOR the matching sprite bit,
/// and every other cell of the grid is untouched.
proof fn lemma_row_drawn_cells(g: Seq<bool>, b: u8, x0: int, y: int, j: int)
    requires
        g.len() == 2048,
        0 <= j <= 8,
    ensures
        row_drawn(g, b, x0, y, j).len() == 2048,
        forall|c: int| 0 <= c < j ==> #[trigger] row_drawn(g, b, x0, y, j)[pix_index(x0 + c, y)]
            == (g[pix_index(x0 + c, y)] != sprite_bit(b, c)),
        forall|idx: int|
            0 <= idx < 2048 && !row_covers(x0, y, j, idx) ==> #[trigger] row_drawn(
                g,
                b,
                x0,
                y,
                j,
            )[idx] == g[idx],
    decreases j,
{
    if j > 0 {
        lemma_row_drawn_cells(g, b, x0, y, j - 1);
        let prev = row_drawn(g, b, x0, y, j - 1);
        let cur = row_drawn(g, b, x0, y, j);
        let tip = pix_index(x0 + (j - 1), y);
        assert(0 <= tip < 2048);
        assert(cur == prev.update(tip, prev[tip] != sprite_bit(b, j - 1)));
        assert(!row_covers(x0, y, j - 1, tip)) by {
            assert forall|c: int| 0 <= c < j - 1 implies tip != #[trigger] pix_index(x0 + c, y) by {
                lemma_cells_distinct(x0, y, c, 0, j - 1, 0);
            }
        }
        assert forall|c: int| 0 <= c < j implies #[trigger] cur[pix_index(x0 + c, y)] == (g[
            pix_index(x0 + c, y)
        ] != sprite_bit(b, c)) by {
            if c < j - 1 {
                lemma_cells_distinct(x0, y, c, 0, j - 1, 0);
            }
        }
        assert forall|idx: int|
            0 <= idx < 2048 && !row_covers(x0, y, j, idx) implies #[trigger] cur[idx] == g[
            idx
        ] by {
            assert(!row_covers(x0, y, j - 1, idx));
            assert(idx != tip);
        }
    }
}

/// Cell-by-cell description of one drawn sprite: every wrapped target
/// cell — column `c` of row `k` lands at `pix_index(x0 + c, y0 + k)` —
/// takes its old value XOR the matching sprite bit, and every cell the
/// sprite does not touch keeps its value.
pub proof fn lemma_sprite_drawn_cells(g: Seq<bool>, m: Seq<u8>, i0: int, x0: int, y0: int, r: int)
    requires
        g.len() == 2048,
        0 <= r <= 15,
    ensures
        sprite_drawn(g, m, i0, x0, y0, r).len() == 2048,
        forall|k: int, c: int|
            0 <= k < r && 0 <= c < 8 ==> #[trigger] sprite_drawn(g, m, i0, x0, y0, r)[pix_index(
                x0 + c,
                y0 + k,
            )] == (g[pix_index(x0 + c, y0 + k)] != sprite_bit(m[i0 + k], c)),
        forall|idx: int|
            0 <= idx < 2048 && !sprite_covers(x0, y0, r, idx) ==> #[trigger] sprite_drawn(
                g,
                m,
                i0,
                x0,
                y0,
                r,
            )[idx] == g[idx],
    decreases r,
{
    if r > 0 {
        lemma_sprite_drawn_cells(g, m, i0, x0, y0, r - 1);
        let prev = sprite_drawn(g, m, i0, x0, y0, r - 1);
        let cur = sprite_drawn(g, m, i0, x0, y0, r);
        let b = m[i0 + (r - 1)];
        lemma_row_drawn_cells(prev, b, x0, y0 + (r - 1), 8);
        assert(cur == row_drawn(prev, b, x0, y0 + (r - 1), 8));
        // the cells of earlier rows are outside the last drawn row
        assert forall|k: int, c: int| 0 <= k < r - 1 && 0 <= c < 8 implies !row_covers(
            x0,
            y0 + (r - 1),
            8,
            #[trigger] pix_index(x0 + c, y0 + k),
        ) by {
            assert forall|c2: int| 0 <= c2 < 8 implies pix_index(x0 + c, y0 + k) != #[trigger] pix_index(
                x0 + c2,
                (y0 + (r - 1)),
            ) by {
                lemma_cells_distinct(x0, y0, c, k, c2, r - 1);
            }
        }
        // the cells of the last row are untouched by the earlier rows
        assert forall|c: int| 0 <= c < 8 implies !sprite_covers(
            x0,
            y0,
            r - 1,
            #[trigger] pix_index(x0 + c, y0 + (r - 1)),
        ) by {
            assert forall|k2: int, c2: int| 0 <= k2 < r - 1 && 0 <= c2 < 8 implies pix_index(
                x0 + c,
                y0 + (r - 1),
            ) != #[trigger] pix_index(x0 + c2, y0 + k2) by {
                lemma_cells_distinct(x0, y0, c, r - 1, c2, k2);
            }
        }
        assert forall|k: int, c: int| 0 <= k < r && 0 <= c < 8 implies #[trigger] cur[pix_index(
            x0 + c,
            y0 + k,
        )] == (g[pix_index(x0 + c, y0 + k)] != sprite_bit(m[i0 + k], c)) by {
            if k < r - 1 {
                assert(prev[pix_index(x0 + c, y0 + k)] == (g[pix_index(x0 + c, y0 + k)]
                    != sprite_bit(m[i0 + k], c)));
            } else {
                assert(prev[pix_index(x0 + c, y0 + (r - 1))] == g[pix_index(x0 + c, y0 + (r - 1))]);
            }
        }
        assert forall|idx: int|
            0 <= idx < 2048 && !sprite_covers(x0, y0, r, idx) implies #[trigger] cur[idx] == g[
            idx
        ] by {
            assert(!sprite_covers(x0, y0, r - 1, idx)) by {
                if sprite_covers(x0, y0, r - 1, idx) {
                    let (k, c) = choose|k: int, c: int|
                        0 <= k < r - 1 && 0 <= c < 8 && idx == #[trigger] pix_index(x0 + c, y0 + k);
                    assert(0 <= k < r && 0 <= c < 8 && idx == pix_index(x0 + c, y0 + k));
                }
            }
            assert(!row_covers(x0, y0 + (r - 1), 8, idx)) by {
                if row_covers(x0, y0 + (r - 1), 8, idx) {
                    let c = choose|c: int| 0 <= c < 8 && idx == #[trigger] pix_index(x0 + c, y0 + (r - 1));
                    assert(0 <= r - 1 < r && 0 <= c < 8 && idx == pix_index(x0 + c, y0 + (r - 1)));
                }
            }
        }
    }
}

/// Law: drawing is its own inverse. Drawing the same sprite at the same
/// location twice brings every pixel back to its value before the first
/// draw: each target cell is XOR-toggled by the same bit twice.
pub proof fn lemma_sprite_draw_twice_restores(
    g: Seq<bool>,
    m: Seq<u8>,
    i0: int,
    x0: int,
    y0: int,
    n: int,
)
    requires
        g.len() == 2048,
        0 <= n <= 15,
    ensures
        sprite_drawn(sprite_drawn(g, m, i0, x0, y0, n), m, i0, x0, y0, n) == g,
{
    let g1 = sprite_drawn(g, m, i0, x0, y0, n);
    let g2 = sprite_drawn(g1, m, i0, x0, y0, n);
    lemma_sprite_drawn_cells(g, m, i0, x0, y0, n);
    lemma_sprite_drawn_cells(g1, m, i0, x0, y0, n);
    assert forall|idx: int| 0 <= idx < 2048 implies g2[idx] == g[idx] by {
        if sprite_covers(x0, y0, n, idx) {
            let (k, c) = choose|k: int, c: int|
                0 <= k < n && 0 <= c < 8 && idx == #[trigger] pix_index(x0 + c, y0 + k);
            assert(g2[pix_index(x0 + c, y0 + k)] == (g1[pix_index(x0 + c, y0 + k)] != sprite_bit(
                m[i0 + k],
                c,
            )));
            assert(g1[pix_index(x0 + c, y0 + k)] == (g[pix_index(x0 + c, y0 + k)] != sprite_bit(
                m[i0 + k],
                c,
            )));
        }
    }
    assert(g2 =~= g);
}

/// Law: clearing the framebuffer twice in a row leaves it in the same
/// all-off state as clearing it once, and both clears mark it dirty:
/// `d1` is a framebuffer right after one clear, `d2` one right after a
/// further clear.
pub proof fn lemma_clear_idempotent(d1: Display, d2: Display)
    requires
        d1.grid() == blank_grid() && d1.dirty_flag(),
        d2.grid() == blank_grid() && d2.dirty_flag(),
    ensures
        d2.grid() == d1.grid(),
        d1.dirty_flag() && d2.dirty_flag(),
{
}

} // verus!
