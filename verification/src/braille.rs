//! A drawing surface made of braille characters.
//!
//! Each terminal cell holds a 2x4 dot matrix (U+2800 plus a bit per dot), so
//! a four row strip is really a 16 pixel tall canvas at double horizontal
//! resolution. That is enough to draw a curve instead of a staircase.

use vstd::prelude::*;

use crate::text::{char_from_u32, string_of};

verus! {

/// Dot bit for (row, column) within one cell.
const DOT: [[u8; 2]; 4] = [[0x01, 0x08], [0x02, 0x10], [0x04, 0x20], [0x40, 0x80]];

/// The bit for the dot in row `row` (0 to 3) and column `col` (0 or 1) of a
/// cell: the left column is dots 1, 2, 3 and 7, the right column 4, 5, 6
/// and 8, each dot `n` being bit `n - 1`.
pub open spec fn dot_bit(row: int, col: int) -> u8 {
    if col == 0 {
        if row == 0 { 0x01 } else if row == 1 { 0x02 } else if row == 2 { 0x04 } else { 0x40 }
    } else {
        if row == 0 { 0x08 } else if row == 1 { 0x10 } else if row == 2 { 0x20 } else { 0x80 }
    }
}

/// Which bit of a cell's byte holds the dot in row `row`, column `col`.
pub open spec fn dot_index(row: int, col: int) -> u8 {
    if col == 0 {
        if row == 0 { 0 } else if row == 1 { 1 } else if row == 2 { 2 } else { 6 }
    } else {
        if row == 0 { 3 } else if row == 1 { 4 } else if row == 2 { 5 } else { 7 }
    }
}

/// Each dot of a cell is a single bit, and no two dots share one.
proof fn lemma_dot_bits_are_distinct(r1: int, c1: int, r2: int, c2: int)
    requires
        0 <= r1 < 4,
        0 <= c1 < 2,
        0 <= r2 < 4,
        0 <= c2 < 2,
    ensures
        (dot_bit(r1, c1) & dot_bit(r2, c2) != 0) == (r1 == r2 && c1 == c2),
{
    assert(1u8 << 0u8 == 0x01u8 && 1u8 << 1u8 == 0x02u8 && 1u8 << 2u8 == 0x04u8 && 1u8 << 6u8
        == 0x40u8 && 1u8 << 3u8 == 0x08u8 && 1u8 << 4u8 == 0x10u8 && 1u8 << 5u8 == 0x20u8 && 1u8
        << 7u8 == 0x80u8) by (bit_vector);
    let i = dot_index(r1, c1);
    let j = dot_index(r2, c2);
    assert(dot_bit(r1, c1) == 1u8 << i);
    assert(dot_bit(r2, c2) == 1u8 << j);
    assert(((1u8 << i) & (1u8 << j) != 0) == (i == j)) by (bit_vector)
        requires
            i < 8,
            j < 8,
    ;
}

/// Lighting bits `a` in `o` keeps every bit `o` had.
proof fn lemma_or_then_and(o: u8, a: u8, b: u8)
    ensures
        ((o | a) & b != 0) == ((o & b != 0) || (a & b != 0)),
{
    assert(((o | a) & b != 0) == ((o & b != 0) || (a & b != 0))) by (bit_vector);
}

/// A cell index `row * w + col` with `col < w` names one row and column.
proof fn lemma_cell_index_unique(a1: int, b1: int, a2: int, b2: int, w: int)
    requires
        0 <= b1 < w,
        0 <= b2 < w,
        0 <= a1,
        0 <= a2,
        a1 * w + b1 == a2 * w + b2,
    ensures
        a1 == a2,
        b1 == b2,
{
    if a1 < a2 {
        assert(a1 * w + w <= a2 * w) by (nonlinear_arith)
            requires
                a1 < a2,
                w > 0,
        ;
    } else if a2 < a1 {
        assert(a2 * w + w <= a1 * w) by (nonlinear_arith)
            requires
                a2 < a1,
                w > 0,
        ;
    }
}

/// `row` spells `cells` in braille: each character is U+2800 plus the dot
/// bits of its cell.
pub open spec fn spells(row: Seq<char>, cells: Seq<u8>) -> bool {
    &&& row.len() == cells.len()
    &&& forall|k: int| 0 <= k < row.len() ==> #[trigger] (row[k] as u32) == 0x2800 + cells[k] as u32
}

pub struct Canvas {
    cells_w: usize,
    cells_h: usize,
    bits: Vec<u8>,
}

impl Canvas {
    /// Width in terminal columns.
    pub closed spec fn cells_w(self) -> nat {
        self.cells_w as nat
    }

    /// Height in terminal rows.
    pub closed spec fn cells_h(self) -> nat {
        self.cells_h as nat
    }

    /// One byte per cell, row by row; each bit is one dot.
    pub closed spec fn cells(self) -> Seq<u8> {
        self.bits@
    }

    /// The cells fill the canvas, and its size in dots fits in a `usize`.
    #[verifier::type_invariant]
    closed spec fn wf(self) -> bool {
        &&& self.bits@.len() == self.cells_w * self.cells_h
        &&& self.cells_w * self.cells_h <= usize::MAX
        &&& self.cells_w * 2 <= usize::MAX
        &&& self.cells_h * 4 <= usize::MAX
    }

    /// Whether the dot at (`x`, `y`) is lit.
    pub open spec fn lit(self, x: int, y: int) -> bool {
        &&& 0 <= x < self.cells_w() * 2
        &&& 0 <= y < self.cells_h() * 4
        &&& self.cells()[(y / 4) * self.cells_w() + x / 2] & dot_bit((y % 4) as int, (x % 2) as int) != 0
    }

    pub fn new(cells_w: usize, cells_h: usize) -> (c: Self)
        requires
            cells_w * cells_h <= usize::MAX,
            cells_w * 2 <= usize::MAX,
            cells_h * 4 <= usize::MAX,
        ensures
            c.cells_w() == cells_w,
            c.cells_h() == cells_h,
            c.cells() == Seq::new((cells_w * cells_h) as nat, |i: int| 0u8),
            forall|px: int, py: int| !(#[trigger] c.lit(px, py)),
    {
        let n = cells_w * cells_h;
        let mut bits: Vec<u8> = Vec::new();
        let mut i: usize = 0;
        while i < n
            invariant
                i <= n,
                bits@ == Seq::new(i as nat, |j: int| 0u8),
            decreases n - i,
        {
            bits.push(0);
            i = i + 1;
        }
        let c = Canvas { cells_w, cells_h, bits };
        proof {
            assert forall|px: int, py: int| !(#[trigger] c.lit(px, py)) by {
                if 0 <= px < cells_w * 2 && 0 <= py < cells_h * 4 {
                    let j = (py / 4) * cells_w + px / 2;
                    assert(0 <= j < cells_w * cells_h) by (nonlinear_arith)
                        requires
                            0 <= px < cells_w * 2,
                            0 <= py < cells_h * 4,
                            j == (py / 4) * cells_w + px / 2,
                    ;
                    let b = dot_bit(py % 4, px % 2);
                    assert(0u8 & b == 0) by (bit_vector);
                }
            }
        }
        c
    }

    /// Width in dots, which is twice the width in terminal columns.
    pub fn width(&self) -> (r: usize)
        ensures
            r == self.cells_w() * 2,
            self.cells().len() == self.cells_w() * self.cells_h(),
        no_unwind
    {
        proof {
            use_type_invariant(self);
        }
        self.cells_w * 2
    }

    /// Height in dots, which is four times the height in terminal rows.
    pub fn height(&self) -> (r: usize)
        ensures
            r == self.cells_h() * 4,
            self.cells().len() == self.cells_w() * self.cells_h(),
        no_unwind
    {
        proof {
            use_type_invariant(self);
        }
        self.cells_h * 4
    }

    /// Light one dot. Coordinates outside the canvas are ignored so callers
    /// do not have to clamp.
    pub fn set(&mut self, x: usize, y: usize)
        ensures
            old(self).cells().len() == old(self).cells_w() * old(self).cells_h(),
            final(self).cells().len() == final(self).cells_w() * final(self).cells_h(),
            final(self).cells_w() == old(self).cells_w(),
            final(self).cells_h() == old(self).cells_h(),
            x >= old(self).cells_w() * 2 || y >= old(self).cells_h() * 4 ==> final(self).cells()
                == old(self).cells(),
            x < old(self).cells_w() * 2 && y < old(self).cells_h() * 4 ==> final(self).cells()
                == old(self).cells().update(
                (y / 4) * old(self).cells_w() + x / 2,
                old(self).cells()[(y / 4) * old(self).cells_w() + x / 2] | dot_bit((y % 4) as int, (x % 2) as int),
            ),
            x < old(self).cells_w() * 2 && y < old(self).cells_h() * 4 ==> forall|px: int, py: int|
                #[trigger] final(self).lit(px, py) == (old(self).lit(px, py) || (px == x && py == y)),
        no_unwind
    {
        proof {
            use_type_invariant(&*self);
        }
        if x >= self.width() || y >= self.height() {
            return;
        }
        assert((y / 4) * self.cells_w + (x / 2) < self.cells_w * self.cells_h && 0 <= (y / 4)
            * self.cells_w) by (nonlinear_arith)
            requires
                x < self.cells_w * 2,
                y < self.cells_h * 4,
        ;
        let idx = (y / 4) * self.cells_w + (x / 2);
        let old_bits = self.bits[idx];
        let bit = DOT[y % 4][x % 2];
        assert(bit == dot_bit((y % 4) as int, (x % 2) as int));
        let ghost before = *self;
        self.bits[idx] = old_bits | bit;
        proof {
            let w = self.cells_w as int;
            assert forall|px: int, py: int| #[trigger]
                self.lit(px, py) == (before.lit(px, py) || (px == x && py == y)) by {
                if 0 <= px < w * 2 && 0 <= py < self.cells_h * 4 {
                    let j = (py / 4) * w + px / 2;
                    assert(0 <= j < w * self.cells_h) by (nonlinear_arith)
                        requires
                            0 <= px < w * 2,
                            0 <= py < self.cells_h * 4,
                            j == (py / 4) * w + px / 2,
                    ;
                    if j == idx {
                        lemma_cell_index_unique(py / 4, px / 2, (y / 4) as int, (x / 2) as int, w);
                        lemma_or_then_and(old_bits, bit, dot_bit(py % 4, px % 2));
                        lemma_dot_bits_are_distinct((y % 4) as int, (x % 2) as int, py % 4, px % 2);
                    } else {
                        if px == x && py == y {
                            assert(j == idx);
                        }
                    }
                }
            }
        }
    }

    /// One string per terminal row, each cell the braille character of its
    /// dots. Rows are separate so each can be given its own colour.
    pub fn rows(&self) -> (r: Vec<String>)
        ensures
            self.cells().len() == self.cells_w() * self.cells_h(),
            r@.len() == self.cells_h(),
            forall|row: int| 0 <= row < self.cells_h() ==> (#[trigger] r@[row])@.len() == self.cells_w(),
            forall|row: int|
                0 <= row < self.cells_h() ==> spells(
                    (#[trigger] r@[row])@,
                    self.cells().subrange(row * self.cells_w(), (row + 1) * self.cells_w()),
                ),
    {
        proof {
            use_type_invariant(self);
        }
        let w = self.cells_w;
        let mut out: Vec<String> = Vec::new();
        let mut r: usize = 0;
        while r < self.cells_h
            invariant
                r <= self.cells_h,
                w == self.cells_w,
                self.bits@.len() == self.cells_w * self.cells_h,
                self.cells_w * self.cells_h <= usize::MAX,
                out@.len() == r,
                forall|row: int| 0 <= row < r ==> (#[trigger] out@[row])@.len() == w,
                forall|row: int|
                    0 <= row < r ==> spells(
                        (#[trigger] out@[row])@,
                        self.bits@.subrange(row * w, (row + 1) * w),
                    ),
            decreases self.cells_h - r,
        {
            assert((r + 1) * w <= self.cells_w * self.cells_h) by (nonlinear_arith)
                requires
                    r < self.cells_h,
                    w == self.cells_w,
            ;
            assert(r * w + w == (r + 1) * w && 0 <= r * w) by (nonlinear_arith)
                requires
                    r >= 0,
                    w >= 0,
            ;
            let base = r * w;
            let mut line: Vec<char> = Vec::new();
            let mut c: usize = 0;
            while c < w
                invariant
                    c <= w,
                    w == self.cells_w,
                    (r + 1) * w <= self.bits@.len(),
                    self.bits@.len() <= usize::MAX,
                    r * w + w == (r + 1) * w,
                    base == r * w,
                    spells(line@, self.bits@.subrange(r * w, r * w + c)),
                decreases w - c,
            {
                let b = self.bits[base + c];
                let ch = match char_from_u32(0x2800 + b as u32) {
                    Some(ch) => ch,
                    None => ' ',
                };
                assert(ch as u32 == 0x2800 + b as u32);
                line.push(ch);
                assert(self.bits@.subrange(r * w, r * w + c + 1) == self.bits@.subrange(
                    r * w,
                    r * w + c,
                ).push(b));
                c = c + 1;
            }
            assert(line@.len() == w);
            out.push(string_of(&line));
            r = r + 1;
        }
        out
    }
}

} // verus!
