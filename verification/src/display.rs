use vstd::prelude::*;

verus! {

/// Width of the monochrome pixel grid.
pub const DISPLAY_WIDTH: usize = 64;

/// Height of the monochrome pixel grid.
pub const DISPLAY_HEIGHT: usize = 32;

/// Number of pixels in the grid.
pub const DISPLAY_PIXELS: usize = 2048;

/// Row-major position of the pixel at column `x`, row `y`.
pub open spec fn pix_index(x: int, y: int) -> int {
    y * 64 + x
}

/// Screen column hit by bit `b` of a sprite row drawn at column `vx`;
/// columns wrap around the right screen edge.
pub open spec fn col_of(vx: u8, b: int) -> int {
    (vx + b) % 64
}

/// Whether bit `b` of a sprite byte is set, bit 0 being the most
/// significant (leftmost on screen).
pub open spec fn sprite_bit(byte: u8, b: int) -> bool {
    byte & (0x80u8 >> (b as u8)) != 0
}

/// An all-off display.
pub open spec fn blank_display() -> Seq<bool> {
    Seq::new(2048, |i: int| false)
}

/// XOR-blit of bits `b..8` of one sprite row byte onto the display at
/// row `y`, columns starting at `vx`: yields the new display and whether
/// some previously-set pixel was turned off.
pub open spec fn blit_row_from(disp: Seq<bool>, byte: u8, vx: u8, y: int, b: int) -> (Seq<
    bool,
>, bool)
    decreases 8 - b,
{
    if b < 0 || b >= 8 {
        (disp, false)
    } else if sprite_bit(byte, b) {
        let idx = pix_index(col_of(vx, b), y);
        let was = disp[idx];
        let rest = blit_row_from(disp.update(idx, !was), byte, vx, y, b + 1);
        (rest.0, was || rest.1)
    } else {
        blit_row_from(disp, byte, vx, y, b + 1)
    }
}

/// XOR-blit of one whole sprite row byte.
pub open spec fn blit_row(disp: Seq<bool>, byte: u8, vx: u8, y: int) -> (Seq<bool>, bool) {
    blit_row_from(disp, byte, vx, y, 0)
}

/// XOR-blit of sprite rows `r..` onto the display at column `vx`, the row
/// with index `r` landing on screen row `(vy + r) % 32`: yields the new
/// display and whether any row reported a collision.
pub open spec fn blit_rows_from(disp: Seq<bool>, rows: Seq<u8>, vx: u8, vy: u8, r: int) -> (Seq<
    bool,
>, bool)
    decreases rows.len() - r,
{
    if r < 0 || r >= rows.len() {
        (disp, false)
    } else {
        let row = blit_row(disp, rows[r], vx, (vy + r) % 32);
        let rest = blit_rows_from(row.0, rows, vx, vy, r + 1);
        (rest.0, row.1 || rest.1)
    }
}

/// XOR-blit of a whole sprite, one byte per row.
pub open spec fn blit_rows(disp: Seq<bool>, rows: Seq<u8>, vx: u8, vy: u8) -> (Seq<bool>, bool) {
    blit_rows_from(disp, rows, vx, vy, 0)
}

/// Whether pixel position `j` is toggled by some bit among `b..8` of the
/// sprite row byte drawn at column `vx`, row `y`.
pub open spec fn row_covers(j: int, byte: u8, vx: u8, y: int, b: int) -> bool {
    exists|b2: int| b <= b2 < 8 && sprite_bit(byte, b2) && j == pix_index(col_of(vx, b2), y)
}

/// Two distinct bits of one sprite row always land on distinct screen
/// columns: eight consecutive columns cannot wrap onto each other.
pub proof fn lemma_col_distinct(vx: u8, b1: int, b2: int)
    requires
        0 <= b1 < b2 < 8,
    ensures
        col_of(vx, b1) != col_of(vx, b2),
{
    let a1 = vx + b1;
    let a2 = vx + b2;
    vstd::arithmetic::div_mod::lemma_fundamental_div_mod(a1, 64);
    vstd::arithmetic::div_mod::lemma_fundamental_div_mod(a2, 64);
    if col_of(vx, b1) == col_of(vx, b2) {
        let q1 = a1 / 64;
        let q2 = a2 / 64;
        assert(a2 - a1 == 64 * (q2 - q1));
        assert(1 <= a2 - a1 < 8);
        assert(false);
    }
}

/// Exact effect of blitting bits `b..8` of one sprite row: each covered
/// pixel is flipped, every other pixel keeps its state, and a collision is
/// reported exactly when some covered pixel was lit before.
pub proof fn lemma_blit_row_char(disp: Seq<bool>, byte: u8, vx: u8, y: int, b: int)
    requires
        disp.len() == 2048,
        0 <= y < 32,
        0 <= b <= 8,
    ensures
        blit_row_from(disp, byte, vx, y, b).0.len() == 2048,
        forall|j: int|
            0 <= j < 2048 ==> #[trigger] blit_row_from(disp, byte, vx, y, b).0[j] == if row_covers(
                j,
                byte,
                vx,
                y,
                b,
            ) {
                !disp[j]
            } else {
                disp[j]
            },
        blit_row_from(disp, byte, vx, y, b).1 == exists|b2: int|
            b <= b2 < 8 && sprite_bit(byte, b2) && disp[pix_index(col_of(vx, b2), y)],
    decreases 8 - b,
{
    if b >= 8 {
        assert(forall|j: int| 0 <= j < 2048 ==> !row_covers(j, byte, vx, y, b));
    } else if sprite_bit(byte, b) {
        let idx = pix_index(col_of(vx, b), y);
        assert(0 <= col_of(vx, b) < 64);
        assert(0 <= idx < 2048);
        let disp2 = disp.update(idx, !disp[idx]);
        lemma_blit_row_char(disp2, byte, vx, y, b + 1);
        assert forall|b2: int| b + 1 <= b2 < 8 implies pix_index(col_of(vx, b2), y) != idx by {
            lemma_col_distinct(vx, b, b2);
        }
        assert forall|j: int| 0 <= j < 2048 implies #[trigger] blit_row_from(
            disp,
            byte,
            vx,
            y,
            b,
        ).0[j] == if row_covers(j, byte, vx, y, b) {
            !disp[j]
        } else {
            disp[j]
        } by {
            if j == idx {
                assert(!row_covers(j, byte, vx, y, b + 1));
                assert(row_covers(j, byte, vx, y, b));
            } else {
                assert(disp2[j] == disp[j]);
                if row_covers(j, byte, vx, y, b + 1) {
                    assert(row_covers(j, byte, vx, y, b));
                } else if row_covers(j, byte, vx, y, b) {
                    let b2 = choose|b2: int|
                        b <= b2 < 8 && sprite_bit(byte, b2) && j == pix_index(col_of(vx, b2), y);
                    assert(b2 == b ==> j == idx);
                    assert(b2 > b ==> row_covers(j, byte, vx, y, b + 1));
                    assert(false);
                }
            }
        }
        assert(blit_row_from(disp, byte, vx, y, b).1 == (disp[idx] || blit_row_from(
            disp2,
            byte,
            vx,
            y,
            b + 1,
        ).1));
        assert forall|b2: int|
            b + 1 <= b2 < 8 && sprite_bit(byte, b2) implies disp2[pix_index(col_of(vx, b2), y)]
            == disp[pix_index(col_of(vx, b2), y)] by {
            lemma_col_distinct(vx, b, b2);
            assert(0 <= col_of(vx, b2) < 64);
        }
        if blit_row_from(disp, byte, vx, y, b).1 {
            if disp[idx] {
                assert(b <= b < 8 && sprite_bit(byte, b) && disp[pix_index(col_of(vx, b), y)]);
            } else {
                let b2 = choose|b2: int|
                    b + 1 <= b2 < 8 && sprite_bit(byte, b2) && disp2[pix_index(col_of(vx, b2), y)];
                assert(b <= b2 < 8 && sprite_bit(byte, b2) && disp[pix_index(col_of(vx, b2), y)]);
            }
        } else {
            if exists|b2: int|
                b <= b2 < 8 && sprite_bit(byte, b2) && disp[pix_index(col_of(vx, b2), y)] {
                let b2 = choose|b2: int|
                    b <= b2 < 8 && sprite_bit(byte, b2) && disp[pix_index(col_of(vx, b2), y)];
                if b2 == b {
                    assert(disp[idx]);
                    assert(false);
                } else {
                    assert(disp2[pix_index(col_of(vx, b2), y)]);
                    assert(false);
                }
            }
        }
    } else {
        lemma_blit_row_char(disp, byte, vx, y, b + 1);
        assert(blit_row_from(disp, byte, vx, y, b) == blit_row_from(disp, byte, vx, y, b + 1));
        assert forall|j: int| 0 <= j < 2048 implies row_covers(j, byte, vx, y, b) == row_covers(
            j,
            byte,
            vx,
            y,
            b + 1,
        ) by {
            if row_covers(j, byte, vx, y, b) {
                let b2 = choose|b2: int|
                    b <= b2 < 8 && sprite_bit(byte, b2) && j == pix_index(col_of(vx, b2), y);
                assert(b2 != b);
                assert(row_covers(j, byte, vx, y, b + 1));
            }
        }
        assert((exists|b2: int|
            b <= b2 < 8 && sprite_bit(byte, b2) && disp[pix_index(col_of(vx, b2), y)]) == (exists|
            b2: int,
        |
            b + 1 <= b2 < 8 && sprite_bit(byte, b2) && disp[pix_index(col_of(vx, b2), y)])) by {
            if exists|b2: int|
                b <= b2 < 8 && sprite_bit(byte, b2) && disp[pix_index(col_of(vx, b2), y)] {
                let b2 = choose|b2: int|
                    b <= b2 < 8 && sprite_bit(byte, b2) && disp[pix_index(col_of(vx, b2), y)];
                assert(b2 != b);
                assert(b + 1 <= b2 < 8 && sprite_bit(byte, b2) && disp[pix_index(
                    col_of(vx, b2),
                    y,
                )]);
            }
        }
    }
}

/// A sprite byte is nonzero exactly when one of its eight bits is set.
pub proof fn lemma_byte_nonzero_has_bit(byte: u8)
    ensures
        (byte != 0) <==> exists|b: int| 0 <= b < 8 && sprite_bit(byte, b),
{
    assert((0x80u8 >> 0u8) == 0x80u8 && (0x80u8 >> 1u8) == 0x40u8 && (0x80u8 >> 2u8) == 0x20u8 && (
    0x80u8 >> 3u8) == 0x10u8 && (0x80u8 >> 4u8) == 0x08u8 && (0x80u8 >> 5u8) == 0x04u8 && (0x80u8
        >> 6u8) == 0x02u8 && (0x80u8 >> 7u8) == 0x01u8) by (bit_vector);
    if byte != 0 {
        assert(byte & 0x80u8 != 0 || byte & 0x40u8 != 0 || byte & 0x20u8 != 0 || byte & 0x10u8 != 0
            || byte & 0x08u8 != 0 || byte & 0x04u8 != 0 || byte & 0x02u8 != 0 || byte & 0x01u8
            != 0) by (bit_vector)
            requires
                byte != 0u8,
        ;
        if byte & 0x80u8 != 0 {
            assert(sprite_bit(byte, 0));
        } else if byte & 0x40u8 != 0 {
            assert(sprite_bit(byte, 1));
        } else if byte & 0x20u8 != 0 {
            assert(sprite_bit(byte, 2));
        } else if byte & 0x10u8 != 0 {
            assert(sprite_bit(byte, 3));
        } else if byte & 0x08u8 != 0 {
            assert(sprite_bit(byte, 4));
        } else if byte & 0x04u8 != 0 {
            assert(sprite_bit(byte, 5));
        } else if byte & 0x02u8 != 0 {
            assert(sprite_bit(byte, 6));
        } else {
            assert(sprite_bit(byte, 7));
        }
    } else {
        assert forall|b: int| 0 <= b < 8 implies !sprite_bit(byte, b) by {
            assert(0u8 & (0x80u8 >> (b as u8)) == 0) by (bit_vector);
        }
    }
}

/// Drawing one and the same single-row sprite twice at the same position on
/// a blank display turns every affected pixel back off, the first draw
/// reporting no collision and the second one reporting a collision exactly
/// when the sprite row has a set bit.
pub proof fn lemma_draw_single_row_twice_blank(byte: u8, vx: u8, vy: u8)
    ensures
        blit_rows(blank_display(), seq![byte], vx, vy).1 == false,
        blit_rows(blit_rows(blank_display(), seq![byte], vx, vy).0, seq![byte], vx, vy).0
            =~= blank_display(),
        blit_rows(blit_rows(blank_display(), seq![byte], vx, vy).0, seq![byte], vx, vy).1 == (byte
            != 0),
{
    let blank = blank_display();
    let rows = seq![byte];
    let y = (vy + 0) % 32;
    assert(0 <= y < 32);
    let first = blit_row(blank, byte, vx, y);
    assert(blit_rows(blank, rows, vx, vy) == (
    blit_rows_from(first.0, rows, vx, vy, 1).0,
    first.1 || blit_rows_from(first.0, rows, vx, vy, 1).1,
    ));
    assert(blit_rows_from(first.0, rows, vx, vy, 1) == (first.0, false));
    lemma_blit_row_char(blank, byte, vx, y, 0);
    assert(first.1 == false);
    let second = blit_row(first.0, byte, vx, y);
    assert(blit_rows(first.0, rows, vx, vy) == (
    blit_rows_from(second.0, rows, vx, vy, 1).0,
    second.1 || blit_rows_from(second.0, rows, vx, vy, 1).1,
    ));
    assert(blit_rows_from(second.0, rows, vx, vy, 1) == (second.0, false));
    lemma_blit_row_char(first.0, byte, vx, y, 0);
    assert forall|j: int| 0 <= j < 2048 implies second.0[j] == blank[j] by {
        if row_covers(j, byte, vx, y, 0) {
            assert(first.0[j] == !blank[j]);
            assert(second.0[j] == !first.0[j]);
        } else {
            assert(first.0[j] == blank[j]);
            assert(second.0[j] == first.0[j]);
        }
    }
    assert(second.0 =~= blank);
    lemma_byte_nonzero_has_bit(byte);
    if byte != 0 {
        let b = choose|b: int| 0 <= b < 8 && sprite_bit(byte, b);
        assert(0 <= col_of(vx, b) < 64);
        assert(row_covers(pix_index(col_of(vx, b), y), byte, vx, y, 0));
        assert(first.0[pix_index(col_of(vx, b), y)]);
        assert(second.1);
    } else {
        if second.1 {
            let b2 = choose|b2: int|
                0 <= b2 < 8 && sprite_bit(byte, b2) && first.0[pix_index(col_of(vx, b2), y)];
            assert(false);
        }
    }
}

/// The 64x32 monochrome display buffer, stored row-major.  Only the draw
/// opcode mutates it, only the clear opcode empties it.
pub struct Display {
    pixels: Vec<bool>,
}

impl View for Display {
    type V = Seq<bool>;

    closed spec fn view(&self) -> Seq<bool> {
        self.pixels@
    }
}

fn make_blank() -> (v: Vec<bool>)
    ensures
        v@ == blank_display(),
{
    let mut v: Vec<bool> = Vec::new();
    let mut i: usize = 0;
    while i < DISPLAY_PIXELS
        invariant
            i <= 2048,
            v@.len() == i,
            forall|k: int| 0 <= k < i ==> !v@[k],
        decreases 2048 - i,
    {
        v.push(false);
        i += 1;
    }
    proof {
        assert(v@ =~= blank_display());
    }
    v
}

impl Display {
    /// A display always carries exactly 64 * 32 pixel states.
    pub open spec fn wf(&self) -> bool {
        self@.len() == 2048
    }

    /// All pixels start off.
    pub fn new() -> (r: Display)
        ensures
            r.wf(),
            r@ == blank_display(),
    {
        Display { pixels: make_blank() }
    }

    /// Turn every pixel off, as the 00E0 opcode does.
    pub fn clear(&mut self)
        ensures
            final(self).wf(),
            final(self)@ == blank_display(),
    {
        self.pixels = make_blank();
    }

    /// Whether the pixel at column `x`, row `y` is lit.
    pub fn pixel(&self, x: usize, y: usize) -> (r: bool)
        requires
            self.wf(),
            x < 64,
            y < 32,
        ensures
            r == self@[pix_index(x as int, y as int)],
    {
        self.pixels[y * DISPLAY_WIDTH + x]
    }

    /// Flip the pixel at column `x`, row `y` and report whether it was lit
    /// before (a collision when flipped off by a draw).
    pub fn toggle_pixel(&mut self, x: usize, y: usize) -> (was: bool)
        requires
            old(self).wf(),
            x < 64,
            y < 32,
        ensures
            final(self).wf(),
            was == old(self)@[pix_index(x as int, y as int)],
            final(self)@ == old(self)@.update(pix_index(x as int, y as int), !was),
    {
        let idx = y * DISPLAY_WIDTH + x;
        let was = self.pixels[idx];
        self.pixels.set(idx, !was);
        was
    }

    /// XOR-blit the sprite given by `rows` with its top-left corner at
    /// column `vx`, row `vy`, wrapping at both screen edges; report whether
    /// any set pixel was turned off.
    pub fn draw_sprite(&mut self, rows: &Vec<u8>, vx: u8, vy: u8) -> (coll: bool)
        requires
            old(self).wf(),
            rows@.len() <= 15,
        ensures
            final(self).wf(),
            (final(self)@, coll) == blit_rows(old(self)@, rows@, vx, vy),
    {
        let ghost target = blit_rows(self@, rows@, vx, vy);
        let mut coll = false;
        let mut r: usize = 0;
        while r < rows.len()
            invariant
                self.wf(),
                rows@.len() <= 15,
                r <= rows@.len(),
                target.0 == blit_rows_from(self@, rows@, vx, vy, r as int).0,
                target.1 == (coll || blit_rows_from(self@, rows@, vx, vy, r as int).1),
            decreases rows@.len() - r,
        {
            let byte = rows[r];
            let y = (vy as usize + r) % DISPLAY_HEIGHT;
            let ghost disp_at_row = self@;
            let ghost row_spec = blit_row(disp_at_row, byte, vx, y as int);
            let ghost rest_spec = blit_rows_from(row_spec.0, rows@, vx, vy, r as int + 1);
            proof {
                assert(blit_rows_from(disp_at_row, rows@, vx, vy, r as int) == (
                rest_spec.0,
                row_spec.1 || rest_spec.1,
                ));
            }
            let mut row_coll = false;
            let mut b: usize = 0;
            while b < 8
                invariant
                    self.wf(),
                    b <= 8,
                    y < 32,
                    row_spec.0 == blit_row_from(self@, byte, vx, y as int, b as int).0,
                    row_spec.1 == (row_coll || blit_row_from(self@, byte, vx, y as int, b as int).1),
                decreases 8 - b,
            {
                let ghost disp_at_bit = self@;
                if byte & (0x80u8 >> (b as u32)) != 0 {
                    proof {
                        assert(sprite_bit(byte, b as int));
                    }
                    let x = (vx as usize + b) % DISPLAY_WIDTH;
                    proof {
                        assert(x as int == col_of(vx, b as int));
                    }
                    let was = self.toggle_pixel(x, y);
                    row_coll = row_coll || was;
                    proof {
                        let idx = pix_index(col_of(vx, b as int), y as int);
                        assert(self@ == disp_at_bit.update(idx, !disp_at_bit[idx]));
                        assert(blit_row_from(disp_at_bit, byte, vx, y as int, b as int) == (
                        blit_row_from(self@, byte, vx, y as int, b as int + 1).0,
                        disp_at_bit[idx] || blit_row_from(self@, byte, vx, y as int, b as int + 1).1,
                        ));
                    }
                } else {
                    proof {
                        assert(!sprite_bit(byte, b as int));
                        assert(blit_row_from(disp_at_bit, byte, vx, y as int, b as int)
                            == blit_row_from(disp_at_bit, byte, vx, y as int, b as int + 1));
                    }
                }
                b += 1;
            }
            coll = coll || row_coll;
            r += 1;
        }
        coll
    }
}

} // verus!
