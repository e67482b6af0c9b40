//! A rectangular block of `w * h` pointy-top hex tiles, indexed in
//! row-major offset coordinates: each row's first column shifts left by
//! half the row index so the block stays visually rectangular.
//!
//! The row shift `row / 2` uses floor division, applied consistently in
//! both index directions, so the bijection also holds for rectangles that
//! span negative rows.

use vstd::arithmetic::div_mod::{
    lemma_div_pos_is_pos, lemma_fundamental_div_mod, lemma_fundamental_div_mod_converse,
    lemma_mod_division_less_than_divisor, lemma_multiply_divide_lt,
};
use vstd::prelude::*;

use crate::hex::{div_floor_2, Hex};

verus! {

/// The rectangle shape: anchor hex (index zero), width and height in
/// tiles.
#[derive(Clone, Copy, PartialEq, Eq, Structural, Debug)]
pub struct Rect {
    pub h0: Hex,
    pub w: i32,
    pub h: i32,
}

/// Well-formedness of the rectangle parameters: non-negative extent, an
/// area that fits the index type, and coordinate headroom for every tile
/// and for the center conversion.
pub open spec fn rect_wf_parts(q0: int, r0: int, w: int, h: int) -> bool {
    &&& 0 <= w
    &&& 0 <= h
    &&& w * h <= i32::MAX
    &&& i32::MIN <= q0 - h / 2
    &&& q0 + w <= i32::MAX
    &&& i32::MIN <= r0
    &&& r0 + h <= i32::MAX
}

impl Rect {
    /// Well-formedness of this rectangle.
    pub open spec fn wf(self) -> bool {
        rect_wf_parts(self.h0.q as int, self.h0.r as int, self.w as int, self.h as int)
    }

    /// The anchor hex: the tile at index zero.
    pub open spec fn spec_h0(self) -> Hex {
        self.h0
    }

    /// Width in tiles.
    pub open spec fn spec_w(self) -> int {
        self.w as int
    }

    /// Height in tiles.
    pub open spec fn spec_h(self) -> int {
        self.h as int
    }

    /// The tile at row-major index `i`: column `i % w` of row `i / w`,
    /// shifted left by half the row.
    pub open spec fn spec_hex_at(self, i: int) -> Hex {
        let row = i / (self.w as int);
        let col = i % (self.w as int);
        Hex { q: (self.h0.q + col - row / 2) as i32, r: (self.h0.r + row) as i32 }
    }

    /// Row offset of `hx` from the anchor.
    pub open spec fn spec_row_off(self, hx: Hex) -> int {
        hx.r - self.h0.r
    }

    /// Column offset of `hx` from the anchor, undoing the row shift.
    pub open spec fn spec_col_off(self, hx: Hex) -> int {
        hx.q - self.h0.q + self.spec_row_off(hx) / 2
    }

    /// Whether `hx` falls inside the rectangle.
    pub open spec fn spec_contains(self, hx: Hex) -> bool {
        &&& 0 <= self.spec_col_off(hx) < self.w
        &&& 0 <= self.spec_row_off(hx) < self.h
    }

    /// The row-major index of an inside hex.
    pub open spec fn spec_ind_of(self, hx: Hex) -> int {
        self.spec_col_off(hx) + self.spec_row_off(hx) * (self.w as int)
    }

    /// The center hex of the rectangle, half the extent away from the
    /// anchor on both axes (with the row shift undone on `q`).
    pub open spec fn spec_center(self) -> Hex {
        Hex {
            q: (self.h0.q + (self.w as int) / 2 - (self.h as int) / 2) as i32,
            r: (self.h0.r + (self.h as int) / 2) as i32,
        }
    }

    /// The anchor of the rectangle of this extent whose center is `c`.
    pub open spec fn spec_anchor_for(self, c: Hex) -> Hex {
        Hex {
            q: (c.q - (self.w as int) / 2 + (self.h as int) / 2) as i32,
            r: (c.r - (self.h as int) / 2) as i32,
        }
    }

    /// Builds the `w * h` rectangle anchored at `h0`. Extents or anchors
    /// for which tiles would leave the coordinate type are a caller
    /// contract breach and are excluded up front.
    pub fn new(h0: Hex, w: i32, h: i32) -> (res: Rect)
        requires
            rect_wf_parts(h0.q as int, h0.r as int, w as int, h as int),
        ensures
            res == (Rect { h0, w, h }),
            res.wf(),
    {
        Rect { h0, w, h }
    }

    /// The center hex of the rectangle.
    pub fn center(&self) -> (res: Hex)
        requires
            self.wf(),
        ensures
            res == self.spec_center(),
    {
        let q_off: i32 = self.h / 2;
        let q64: i64 = (self.h0.q as i64) + ((self.w / 2) as i64) - (q_off as i64);
        let r64: i64 = (self.h0.r as i64) + (q_off as i64);
        proof {
            crate::hex::lemma_half_bounds(self.w as int);
            crate::hex::lemma_half_bounds(self.h as int);
        }
        Hex { q: q64 as i32, r: r64 as i32 }
    }

    /// Number of tiles in the shape.
    pub fn area(&self) -> (res: usize)
        requires
            self.wf(),
        ensures
            res == self.spec_w() * self.spec_h(),
    {
        (self.w as usize) * (self.h as usize)
    }

    /// The tile at row-major index `ind`, when the index is inside the
    /// rectangle.
    pub fn hex_by_ind(&self, ind: usize) -> (res: Option<Hex>)
        requires
            self.wf(),
        ensures
            res == if ind < self.spec_w() * self.spec_h() {
                Some(self.spec_hex_at(ind as int))
            } else {
                None::<Hex>
            },
    {
        if ind >= self.area() {
            return None;
        }
        proof {
            if self.w == 0 {
                assert((self.w as int) * (self.h as int) == 0) by (nonlinear_arith)
                    requires self.w as int == 0;
            }
            lemma_multiply_divide_lt(ind as int, self.w as int, self.h as int);
            lemma_mod_division_less_than_divisor(ind as int, self.w as int);
            lemma_div_pos_is_pos(ind as int, self.w as int);
            assert(ind <= i32::MAX) by (nonlinear_arith)
                requires
                    0 <= (ind as int),
                    (ind as int) < (self.w as int) * (self.h as int),
                    (self.w as int) * (self.h as int) <= i32::MAX;
            lemma_div_pos_is_pos((ind as int) / (self.w as int), 2);
            vstd::arithmetic::div_mod::lemma_div_is_ordered(
                (ind as int) / (self.w as int),
                self.h as int,
                2,
            );
        }
        let ind32: i32 = ind as i32;
        let row: i32 = ind32 / self.w;
        let col: i32 = ind32 % self.w;
        let q64: i64 = (self.h0.q as i64) + (col as i64) - ((row / 2) as i64);
        let r64: i64 = (self.h0.r as i64) + (row as i64);
        proof {
            vstd::arithmetic::div_mod::lemma_div_is_ordered(0, row as int, 2);
        }
        Some(Hex { q: q64 as i32, r: r64 as i32 })
    }

    /// The row-major index of `hx`, when the rectangle contains it.
    pub fn ind_by_hex(&self, hx: Hex) -> (res: Option<usize>)
        requires
            self.wf(),
        ensures
            res == if self.spec_contains(hx) {
                Some(self.spec_ind_of(hx) as usize)
            } else {
                None::<usize>
            },
            self.spec_contains(hx) ==> 0 <= self.spec_ind_of(hx) < self.spec_w() * self.spec_h(),
    {
        let r_off: i64 = (hx.r as i64) - (self.h0.r as i64);
        let q_off: i64 = (hx.q as i64) - (self.h0.q as i64) + div_floor_2(r_off);
        if 0 <= q_off && q_off < self.w as i64 && 0 <= r_off && r_off < self.h as i64 {
            proof {
                assert(q_off + r_off * (self.w as int) < (self.w as int) * (self.h as int))
                    by (nonlinear_arith)
                    requires
                        0 <= q_off < self.w as int,
                        0 <= r_off < self.h as int;
                assert(r_off * (self.w as int) >= 0) by (nonlinear_arith)
                    requires 0 <= r_off && 0 <= self.w as int;
            }
            Some((q_off + r_off * (self.w as i64)) as usize)
        } else {
            None
        }
    }

    /// Whether the rectangle contains `hx`.
    pub fn contains(&self, hx: Hex) -> (res: bool)
        requires
            self.wf(),
        ensures
            res == self.spec_contains(hx),
    {
        self.ind_by_hex(hx).is_some()
    }

    /// A copy of the rectangle whose center is `hx`.
    pub fn move_to(&self, hx: Hex) -> (res: Rect)
        requires
            self.wf(),
            rect_wf_parts(
                hx.q - (self.w as int) / 2 + (self.h as int) / 2,
                hx.r - (self.h as int) / 2,
                self.w as int,
                self.h as int,
            ),
        ensures
            res == (Rect { h0: self.spec_anchor_for(hx), w: self.w, h: self.h }),
            res.wf(),
    {
        let q_off: i32 = self.h / 2;
        proof {
            crate::hex::lemma_half_bounds(self.w as int);
            crate::hex::lemma_half_bounds(self.h as int);
        }
        let q64: i64 = (hx.q as i64) - ((self.w / 2) as i64) + (q_off as i64);
        let r64: i64 = (hx.r as i64) - (q_off as i64);
        Rect { h0: Hex { q: q64 as i32, r: r64 as i32 }, w: self.w, h: self.h }
    }

    /// The shape's tiles in row-major index order.
    pub fn hexes(&self) -> (res: Vec<Hex>)
        requires
            self.wf(),
        ensures
            res.len() == self.spec_w() * self.spec_h(),
            forall|i: int| 0 <= i < res.len() ==> res[i] == self.spec_hex_at(i),
    {
        let n: usize = self.area();
        let mut out: Vec<Hex> = Vec::new();
        let mut i: usize = 0;
        while i < n
            invariant
                self.wf(),
                n == self.spec_w() * self.spec_h(),
                i <= n,
                out.len() == i,
                forall|j: int| 0 <= j < i ==> out[j] == self.spec_hex_at(j),
            decreases n - i,
        {
            let hx = self.hex_by_ind(i);
            match hx {
                Some(v) => out.push(v),
                None => {
                    proof {
                        assert(false);
                    }
                },
            }
            i += 1;
        }
        out
    }
}

/// Index/coordinate bijection, forward direction: every in-range index
/// maps to a hex inside the rectangle, and mapping that hex back gives
/// the same index.
pub proof fn lemma_rect_bijection(rect: Rect, i: int)
    requires
        rect.wf(),
        0 <= i < rect.spec_w() * rect.spec_h(),
    ensures
        rect.spec_contains(rect.spec_hex_at(i)),
        rect.spec_ind_of(rect.spec_hex_at(i)) == i,
{
    let w = rect.spec_w();
    let h = rect.spec_h();
    let row = i / w;
    let col = i % w;
    if w == 0 {
        assert(w * h == 0) by (nonlinear_arith)
            requires w == 0;
    }
    lemma_multiply_divide_lt(i, w, h);
    lemma_mod_division_less_than_divisor(i, w);
    lemma_div_pos_is_pos(i, w);
    lemma_div_pos_is_pos(row, 2);
    vstd::arithmetic::div_mod::lemma_div_is_ordered(row, h, 2);
    let hx = rect.spec_hex_at(i);
    assert(hx.r == rect.h0.r + row);
    assert(hx.q == rect.h0.q + col - row / 2);
    assert(rect.spec_row_off(hx) == row);
    assert(rect.spec_col_off(hx) == col);
    lemma_fundamental_div_mod(i, w);
    assert(rect.spec_ind_of(hx) == col + row * w);
    assert(col + row * w == i) by (nonlinear_arith)
        requires
            i == w * (i / w) + i % w,
            row == i / w,
            col == i % w;
}

/// Index/coordinate bijection, reverse direction: mapping the index of a
/// contained hex back yields that hex.
pub proof fn lemma_rect_bijection_rev(rect: Rect, hx: Hex)
    requires
        rect.wf(),
        rect.spec_contains(hx),
    ensures
        0 <= rect.spec_ind_of(hx) < rect.spec_w() * rect.spec_h(),
        rect.spec_hex_at(rect.spec_ind_of(hx)) == hx,
{
    let w = rect.spec_w();
    let h = rect.spec_h();
    let row_off = rect.spec_row_off(hx);
    let col_off = rect.spec_col_off(hx);
    let i = rect.spec_ind_of(hx);
    assert(0 <= i && i < w * h) by (nonlinear_arith)
        requires
            i == col_off + row_off * w,
            0 <= col_off < w,
            0 <= row_off < h;
    assert(col_off + row_off * w == w * row_off + col_off) by (nonlinear_arith);
    lemma_fundamental_div_mod_converse(i, w, row_off, col_off);
    assert(i / w == row_off);
    assert(i % w == col_off);
    assert(rect.spec_hex_at(i).r == hx.r);
    assert(rect.spec_hex_at(i).q == hx.q);
}

/// The center/anchor conversions are exact inverses: re-anchoring a
/// rectangle at its own center leaves the anchor unchanged.
pub proof fn lemma_center_anchor_roundtrip(rect: Rect)
    requires
        rect.wf(),
    ensures
        rect.spec_anchor_for(rect.spec_center()) == rect.spec_h0(),
{
    crate::hex::lemma_half_bounds(rect.spec_w());
    crate::hex::lemma_half_bounds(rect.spec_h());
}

} // verus!
