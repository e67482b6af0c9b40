//! A rectangular region of pointy-top hex tiles built from two corner
//! hexes, addressed in row-shifted offset coordinates.
//!
//! The region is anchored at its top-left corner hex `(q0, r0)`. Column
//! and row offsets count from that corner, whose offset column is
//! `q0 + r0 / 2`, so the corner tiles belong to the region and the
//! offset lookups are mutual inverses over it.
//!
//! The row shift `r / 2` uses floor division, applied consistently in
//! every direction of the conversion, so behavior is uniform across
//! negative rows.

use vstd::prelude::*;

use crate::frac::{coord_bounded, MAX_COORD};
use crate::hex::{abs_int, div_floor_2, Hex};

verus! {

/// Offset-column coordinate of a hex: its axial `q` shifted right by
/// half its row.
pub open spec fn spec_off_q(h: Hex) -> int {
    h.q + (h.r as int) / 2
}

/// The smaller of two integers.
pub open spec fn min_int(a: int, b: int) -> int {
    if a < b {
        a
    } else {
        b
    }
}

/// A rectangular region of hex tiles: the axial coordinates of its
/// top-left corner, and its extent in tiles.
#[derive(Clone, Copy, PartialEq, Eq, Structural, Debug)]
pub struct HexRect {
    pub q0: i32,
    pub r0: i32,
    pub width: i32,
    pub height: i32,
}

impl HexRect {
    /// Well-formedness: the ranges a construction from range-bounded
    /// corners can produce.
    pub open spec fn wf(self) -> bool {
        &&& -(4 * MAX_COORD) <= self.q0 <= 4 * MAX_COORD
        &&& -MAX_COORD <= self.r0 <= MAX_COORD
        &&& 1 <= self.width <= 4 * MAX_COORD + 1
        &&& 1 <= self.height <= 2 * MAX_COORD + 1
    }

    /// Base column after construction from corners `a` and `b`: the
    /// smaller offset column, pulled back by the smaller row shift.
    pub open spec fn spec_q0_of(a: Hex, b: Hex) -> int {
        min_int(spec_off_q(a), spec_off_q(b)) - min_int((a.r as int) / 2, (b.r as int) / 2)
    }

    /// Column offset of `h` within the region: how many offset columns
    /// it lies right of the top-left corner.
    pub open spec fn spec_col_off(self, h: Hex) -> int {
        spec_off_q(h) - self.q0 - (self.r0 as int) / 2
    }

    /// Row offset of `h` within the region.
    pub open spec fn spec_row_off(self, h: Hex) -> int {
        h.r - self.r0
    }

    /// Whether the region contains `h`: both offsets from the top-left
    /// corner lie inside the extent.
    pub open spec fn spec_contains(self, h: Hex) -> bool {
        &&& 0 <= self.spec_col_off(h) < self.width
        &&& 0 <= self.spec_row_off(h) < self.height
    }

    /// The hex at in-region offsets `(q_off, r_off)`, counted from the
    /// top-left corner.
    pub open spec fn spec_hex_at_off(self, q_off: int, r_off: int) -> Hex {
        let r = self.r0 + r_off;
        Hex {
            q: (self.q0 + (self.r0 as int) / 2 + q_off - r / 2) as i32,
            r: r as i32,
        }
    }

    /// Builds the rectangle spanned by the two corner hexes `a` and `b`,
    /// in either order.
    pub fn new(a: Hex, b: Hex) -> (res: HexRect)
        requires
            coord_bounded(a),
            coord_bounded(b),
        ensures
            res.q0 == Self::spec_q0_of(a, b),
            res.r0 == min_int(a.r as int, b.r as int),
            res.width == abs_int(spec_off_q(a) - spec_off_q(b)) + 1,
            res.height == abs_int(a.r - b.r) + 1,
            res.wf(),
    {
        let aoff: i64 = div_floor_2(a.r as i64);
        let boff: i64 = div_floor_2(b.r as i64);
        let aq: i64 = (a.q as i64) + aoff;
        let bq: i64 = (b.q as i64) + boff;
        let min_off: i64 = if aoff < boff {
            aoff
        } else {
            boff
        };
        let q0: i64 = (if aq < bq {
            aq
        } else {
            bq
        }) - min_off;
        let r0: i64 = if a.r < b.r {
            a.r as i64
        } else {
            b.r as i64
        };
        let dq: i64 = aq - bq;
        let width: i64 = (if dq < 0 {
            -dq
        } else {
            dq
        }) + 1;
        let dr: i64 = (a.r as i64) - (b.r as i64);
        let height: i64 = (if dr < 0 {
            -dr
        } else {
            dr
        }) + 1;
        HexRect {
            q0: q0 as i32,
            r0: r0 as i32,
            width: width as i32,
            height: height as i32,
        }
    }

    /// The axial coordinates of the top-left corner.
    pub fn qr0(&self) -> (res: (i32, i32))
        ensures
            res == (self.q0, self.r0),
    {
        (self.q0, self.r0)
    }

    /// The extent in tiles: columns and rows.
    pub fn size(&self) -> (res: (i32, i32))
        ensures
            res == (self.width, self.height),
    {
        (self.width, self.height)
    }

    /// Number of tiles in the region.
    pub fn area(&self) -> (res: i32)
        requires
            self.wf(),
            self.width * self.height <= i32::MAX,
        ensures
            res == self.width * self.height,
    {
        proof {
            assert(self.width as int * (self.height as int) >= 1) by (nonlinear_arith)
                requires self.width >= 1 && self.height >= 1;
        }
        let a64: i64 = (self.width as i64) * (self.height as i64);
        a64 as i32
    }

    /// The hex at the top-left corner: the tile at offsets `(0, 0)`.
    pub fn top_left(&self) -> (res: Hex)
        requires
            self.wf(),
        ensures
            res == (Hex { q: self.q0, r: self.r0 }),
    {
        Hex { q: self.q0, r: self.r0 }
    }

    /// The hex at the top-right corner: the tile at offsets
    /// `(width - 1, 0)`.
    pub fn top_right(&self) -> (res: Hex)
        requires
            self.wf(),
        ensures
            res == self.spec_hex_at_off(self.width - 1, 0),
            res.q == self.q0 + self.width - 1,
            res.r == self.r0,
    {
        let q64: i64 = (self.q0 as i64) + (self.width as i64) - 1;
        Hex { q: q64 as i32, r: self.r0 }
    }

    /// The hex at the bottom-left corner: the tile at offsets
    /// `(0, height - 1)`; its row shift moves the bottom row left in
    /// axial coordinates.
    pub fn bot_left(&self) -> (res: Hex)
        requires
            self.wf(),
        ensures
            res == self.spec_hex_at_off(0, self.height - 1),
    {
        self.hex_unchecked((self.height - 1) as usize, 0)
    }

    /// The hex at the bottom-right corner: the tile at offsets
    /// `(width - 1, height - 1)`.
    pub fn bot_right(&self) -> (res: Hex)
        requires
            self.wf(),
        ensures
            res == self.spec_hex_at_off(self.width - 1, self.height - 1),
    {
        self.hex_unchecked((self.height - 1) as usize, (self.width - 1) as usize)
    }

    /// The four corner tiles: top-left, top-right, bottom-left,
    /// bottom-right. All four belong to the region (see
    /// [`lemma_corner_tiles_are_members`]).
    pub fn corners(&self) -> (res: Vec<Hex>)
        requires
            self.wf(),
        ensures
            res.len() == 4,
            res[0] == self.spec_hex_at_off(0, 0),
            res[0] == (Hex { q: self.q0, r: self.r0 }),
            res[1] == self.spec_hex_at_off(self.width - 1, 0),
            res[2] == self.spec_hex_at_off(0, self.height - 1),
            res[3] == self.spec_hex_at_off(self.width - 1, self.height - 1),
    {
        proof {
            lemma_div_floor_2_close(self.r0 as int);
        }
        let mut out: Vec<Hex> = Vec::new();
        out.push(self.top_left());
        out.push(self.top_right());
        out.push(self.bot_left());
        out.push(self.bot_right());
        out
    }

    /// Whether the region contains `h`, by its offsets from the
    /// top-left corner.
    pub fn contains(&self, h: Hex) -> (res: bool)
        requires
            self.wf(),
        ensures
            res == self.spec_contains(h),
    {
        let base: i64 = (self.q0 as i64) + div_floor_2(self.r0 as i64);
        let col: i64 = (h.q as i64) + div_floor_2(h.r as i64) - base;
        let row: i64 = (h.r as i64) - (self.r0 as i64);
        0 <= col && col < self.width as i64 && 0 <= row && row < self.height as i64
    }

    /// The offset-column and row of `h` within the region, when the
    /// region contains it.
    pub fn qr_off(&self, h: Hex) -> (res: Option<(i32, i32)>)
        requires
            self.wf(),
        ensures
            res == if self.spec_contains(h) {
                Some((self.spec_col_off(h) as i32, self.spec_row_off(h) as i32))
            } else {
                None::<(i32, i32)>
            },
    {
        let base: i64 = (self.q0 as i64) + div_floor_2(self.r0 as i64);
        let col: i64 = (h.q as i64) + div_floor_2(h.r as i64) - base;
        let row: i64 = (h.r as i64) - (self.r0 as i64);
        if 0 <= col && col < self.width as i64 && 0 <= row && row < self.height as i64 {
            Some((col as i32, row as i32))
        } else {
            None
        }
    }

    /// The hex at in-region offsets `(q_off, r_off)`, when both offsets
    /// are inside the extent.
    pub fn hex(&self, q_off: i32, r_off: i32) -> (res: Option<Hex>)
        requires
            self.wf(),
        ensures
            res == if 0 <= q_off < self.width && 0 <= r_off < self.height {
                Some(self.spec_hex_at_off(q_off as int, r_off as int))
            } else {
                None::<Hex>
            },
    {
        if 0 <= q_off && q_off < self.width && 0 <= r_off && r_off < self.height {
            let r: i64 = (self.r0 as i64) + (r_off as i64);
            let off: i64 = div_floor_2(r);
            proof {
                lemma_div_floor_2_close(r as int);
                lemma_div_floor_2_close(self.r0 as int);
            }
            let q: i64 = (self.q0 as i64) + div_floor_2(self.r0 as i64) + (q_off as i64) - off;
            Some(Hex { q: q as i32, r: r as i32 })
        } else {
            None
        }
    }

    /// The hex at row `row` and column `col`, counted from the region's
    /// top-left corner. Offsets outside the extent are a caller contract
    /// breach and are excluded up front.
    pub fn hex_unchecked(&self, row: usize, col: usize) -> (res: Hex)
        requires
            self.wf(),
            row < self.height,
            col < self.width,
        ensures
            res == self.spec_hex_at_off(col as int, row as int),
    {
        let r: i64 = (self.r0 as i64) + (row as i64);
        let off: i64 = div_floor_2(r);
        proof {
            lemma_div_floor_2_close(r as int);
            lemma_div_floor_2_close(self.r0 as int);
        }
        let q: i64 = (self.q0 as i64) + div_floor_2(self.r0 as i64) + (col as i64) - off;
        Hex { q: q as i32, r: r as i32 }
    }

    /// The column and row offsets of `h`, without a containment check.
    /// A hex outside the region is a caller contract breach and is
    /// excluded up front.
    pub fn row_col_unchecked(&self, h: Hex) -> (res: (usize, usize))
        requires
            self.wf(),
            self.spec_contains(h),
        ensures
            res.0 == self.spec_col_off(h),
            res.1 == self.spec_row_off(h),
    {
        let base: i64 = (self.q0 as i64) + div_floor_2(self.r0 as i64);
        let col: i64 = (h.q as i64) + div_floor_2(h.r as i64) - base;
        ((col as usize), ((h.r - self.r0) as usize))
    }
}

/// The offset lookups invert each other, forward direction: the tile at
/// in-range offsets lies in the region and reports those offsets back.
pub proof fn lemma_offsets_roundtrip(hr: HexRect, q_off: int, r_off: int)
    requires
        hr.wf(),
        0 <= q_off < hr.width,
        0 <= r_off < hr.height,
    ensures
        hr.spec_contains(hr.spec_hex_at_off(q_off, r_off)),
        hr.spec_col_off(hr.spec_hex_at_off(q_off, r_off)) == q_off,
        hr.spec_row_off(hr.spec_hex_at_off(q_off, r_off)) == r_off,
{
    lemma_div_floor_2_close(hr.r0 + r_off);
    lemma_div_floor_2_close(hr.r0 as int);
}

/// The offset lookups invert each other, reverse direction: a contained
/// hex is the tile at its own offsets.
pub proof fn lemma_hex_at_offsets_roundtrip(hr: HexRect, h: Hex)
    requires
        hr.wf(),
        hr.spec_contains(h),
    ensures
        hr.spec_hex_at_off(hr.spec_col_off(h), hr.spec_row_off(h)) == h,
{
    lemma_div_floor_2_close(hr.r0 as int);
}

/// All four corner tiles belong to the region.
pub proof fn lemma_corner_tiles_are_members(hr: HexRect)
    requires
        hr.wf(),
    ensures
        hr.spec_contains(hr.spec_hex_at_off(0, 0)),
        hr.spec_contains(hr.spec_hex_at_off(hr.width - 1, 0)),
        hr.spec_contains(hr.spec_hex_at_off(0, hr.height - 1)),
        hr.spec_contains(hr.spec_hex_at_off(hr.width - 1, hr.height - 1)),
{
    lemma_offsets_roundtrip(hr, 0, 0);
    lemma_offsets_roundtrip(hr, hr.width - 1, 0);
    lemma_offsets_roundtrip(hr, 0, hr.height - 1);
    lemma_offsets_roundtrip(hr, hr.width - 1, hr.height - 1);
}

/// The region built from two corner hexes contains both of them, and
/// its top-left and top-right corner tiles.
pub proof fn lemma_new_contains_corners(a: Hex, b: Hex, hr: HexRect)
    requires
        coord_bounded(a),
        coord_bounded(b),
        hr.q0 == HexRect::spec_q0_of(a, b),
        hr.r0 == min_int(a.r as int, b.r as int),
        hr.width == abs_int(spec_off_q(a) - spec_off_q(b)) + 1,
        hr.height == abs_int(a.r - b.r) + 1,
    ensures
        hr.spec_contains(a),
        hr.spec_contains(b),
        hr.spec_contains(Hex { q: hr.q0, r: hr.r0 }),
        hr.spec_contains(Hex { q: (hr.q0 + hr.width - 1) as i32, r: hr.r0 }),
{
    if a.r <= b.r {
        vstd::arithmetic::div_mod::lemma_div_is_ordered(a.r as int, b.r as int, 2);
    } else {
        vstd::arithmetic::div_mod::lemma_div_is_ordered(b.r as int, a.r as int, 2);
    }
    assert(hr.q0 + (hr.r0 as int) / 2 == min_int(spec_off_q(a), spec_off_q(b)));
    lemma_div_floor_2_close(hr.r0 as int);
}

/// Floor-halving moves a value by at most half its magnitude plus one.
proof fn lemma_div_floor_2_close(r: int)
    requires
        -(4 * MAX_COORD) <= r <= 4 * MAX_COORD,
    ensures
        -(2 * MAX_COORD) - 1 <= r / 2 <= 2 * MAX_COORD,
{
    vstd::arithmetic::div_mod::lemma_div_is_ordered(r, 4 * MAX_COORD, 2);
    vstd::arithmetic::div_mod::lemma_div_is_ordered(-(4 * MAX_COORD) - 1, r, 2);
    assert((4 * MAX_COORD) / 2 == 2 * MAX_COORD) by {
        vstd::arithmetic::div_mod::lemma_fundamental_div_mod_converse(
            4 * MAX_COORD,
            2,
            2 * MAX_COORD,
            0,
        );
    }
    assert((-(4 * MAX_COORD) - 1) / 2 == -(2 * MAX_COORD) - 1) by {
        vstd::arithmetic::div_mod::lemma_fundamental_div_mod_converse(
            -(4 * MAX_COORD) - 1,
            2,
            -(2 * MAX_COORD) - 1,
            1,
        );
    }
}

} // verus!
