//! A pointy-top triangle of exactly three hex tiles: an anchor hex plus
//! its two upper neighbors.

use vstd::prelude::*;

use crate::frac::{spec_round, FracHex};
use crate::hex::{dir_ind, hex, spec_neighbor, Hex, HexDir};

verus! {

/// The three-hex triangle shape, stored as its member hexes in index
/// order: anchor, upper, upper-left.
#[derive(Clone, Copy, PartialEq, Eq, Structural, Debug)]
pub struct Tri {
    pub v0: Hex,
    pub v1: Hex,
    pub v2: Hex,
}

/// The members stand in the fixed triangle arrangement around the anchor.
pub open spec fn tri_wf(t: Tri) -> bool {
    &&& t.v1.q == t.v0.q
    &&& t.v1.r == t.v0.r - 1
    &&& t.v2.q == t.v0.q - 1
    &&& t.v2.r == t.v0.r
}

/// The anchor has room for the one-step perimeter walk on every side.
pub open spec fn tri_fit(t: Tri) -> bool {
    &&& i32::MIN + 2 <= t.v0.q <= i32::MAX - 1
    &&& i32::MIN + 2 <= t.v0.r <= i32::MAX - 1
}

/// Axial offset, relative to the anchor, of the `i`-th hex of the
/// nine-hex perimeter ring.
pub open spec fn tri_ring_offset(i: int) -> (int, int) {
    if i == 0 {
        (1, 0)
    } else if i == 1 {
        (1, -1)
    } else if i == 2 {
        (1, -2)
    } else if i == 3 {
        (0, -2)
    } else if i == 4 {
        (-1, -1)
    } else if i == 5 {
        (-2, 0)
    } else if i == 6 {
        (-2, 1)
    } else if i == 7 {
        (-1, 1)
    } else {
        (0, 1)
    }
}

/// The `i`-th hex of the perimeter ring around the triangle at `anchor`.
pub open spec fn spec_tri_ring(anchor: Hex, i: int) -> Hex {
    Hex {
        q: (anchor.q + tri_ring_offset(i).0) as i32,
        r: (anchor.r + tri_ring_offset(i).1) as i32,
    }
}

/// The two member hexes facing direction `d`, in the order they are
/// reported: directions pair off on the triangle's three outward edges.
pub open spec fn tri_dir_pair(t: Tri, d: HexDir) -> (Hex, Hex) {
    let i = dir_ind(d);
    if i <= 1 {
        (t.v2, t.v0)
    } else if i <= 3 {
        (t.v0, t.v1)
    } else {
        (t.v1, t.v2)
    }
}

/// Each hex of the nine-hex walk is a true perimeter tile: adjacent to
/// at least one member of the triangle, yet not a member itself.
pub proof fn lemma_tri_ring_is_perimeter(t: Tri, i: int)
    requires
        tri_wf(t),
        tri_fit(t),
        0 <= i < 9,
    ensures
        spec_tri_ring(t.v0, i) != t.v0,
        spec_tri_ring(t.v0, i) != t.v1,
        spec_tri_ring(t.v0, i) != t.v2,
        crate::hex::hex_dist(t.v0, spec_tri_ring(t.v0, i)) == 1 || crate::hex::hex_dist(
            t.v1,
            spec_tri_ring(t.v0, i),
        ) == 1 || crate::hex::hex_dist(t.v2, spec_tri_ring(t.v0, i)) == 1,
{
}

impl Tri {
    /// Builds the triangle anchored at `h`: the members are `h` and its
    /// two upper neighbors.
    pub fn new(h: Hex) -> (res: Tri)
        requires
            h.q > i32::MIN,
            h.r > i32::MIN,
        ensures
            res.v0 == h,
            tri_wf(res),
    {
        Tri { v0: h, v1: h.sub(hex(0, 1)), v2: h.sub(hex(1, 0)) }
    }

    /// The shape's center: its anchor hex.
    pub fn center(&self) -> (res: Hex)
        ensures
            res == self.v0,
    {
        self.v0
    }

    /// The member hex nearest to a fractional position: cube rounding of
    /// the position shifted by one half on both axes, so that the result
    /// snaps to the triangle's grid of anchors.
    pub fn nearest_center(&self, hex: FracHex) -> (res: Hex)
        requires
            hex.wf(),
        ensures
            res.q == spec_round(
                2 * hex.q_num() + hex.denom(),
                2 * hex.r_num() + hex.denom(),
                2 * hex.denom(),
            ).0,
            res.r == spec_round(
                2 * hex.q_num() + hex.denom(),
                2 * hex.r_num() + hex.denom(),
                2 * hex.denom(),
            ).1,
    {
        hex.round_plus_half()
    }

    /// Number of tiles in the shape.
    pub fn area(&self) -> (res: usize)
        ensures
            res == 3,
    {
        3
    }

    /// The shape's tiles in index order.
    pub fn hexes(&self) -> (res: Vec<Hex>)
        ensures
            res@ == seq![self.v0, self.v1, self.v2],
    {
        let mut out: Vec<Hex> = Vec::new();
        out.push(self.v0);
        out.push(self.v1);
        out.push(self.v2);
        proof {
            assert(out@ =~= seq![self.v0, self.v1, self.v2]);
        }
        out
    }

    /// The tile at index `ind`, following the member order.
    pub fn hex_by_ind(&self, ind: usize) -> (res: Option<Hex>)
        ensures
            res == if ind == 0 {
                Some(self.v0)
            } else if ind == 1 {
                Some(self.v1)
            } else if ind == 2 {
                Some(self.v2)
            } else {
                None::<Hex>
            },
    {
        if ind == 0 {
            Some(self.v0)
        } else if ind == 1 {
            Some(self.v1)
        } else if ind == 2 {
            Some(self.v2)
        } else {
            None
        }
    }

    /// The index of `hex` among the members: the first match wins.
    pub fn ind_by_hex(&self, hex: Hex) -> (res: Option<usize>)
        ensures
            res == if hex == self.v0 {
                Some(0usize)
            } else if hex == self.v1 {
                Some(1usize)
            } else if hex == self.v2 {
                Some(2usize)
            } else {
                None::<usize>
            },
    {
        if hex == self.v0 {
            Some(0)
        } else if hex == self.v1 {
            Some(1)
        } else if hex == self.v2 {
            Some(2)
        } else {
            None
        }
    }

    /// Whether the shape contains `hex`.
    pub fn contains(&self, hex: Hex) -> (res: bool)
        ensures
            res == (hex == self.v0 || hex == self.v1 || hex == self.v2),
    {
        hex == self.v0 || hex == self.v1 || hex == self.v2
    }

    /// A copy of the triangle anchored at `hex`.
    pub fn move_to(&self, hex: Hex) -> (res: Tri)
        requires
            hex.q > i32::MIN,
            hex.r > i32::MIN,
        ensures
            res.v0 == hex,
            tri_wf(res),
    {
        Tri::new(hex)
    }

    /// The outer perimeter: the nine hexes ringing the triangle, walked
    /// counter-clockwise in unit steps starting beside the anchor.
    pub fn all_neighbors(&self) -> (res: Vec<Hex>)
        requires
            tri_fit(*self),
        ensures
            res.len() == 9,
            forall|i: int| 0 <= i < 9 ==> res[i] == spec_tri_ring(self.v0, i),
    {
        let mut out: Vec<Hex> = Vec::new();
        let mut cur: Hex = self.v0;
        cur = cur.add(hex(1, 0));
        out.push(cur);
        cur = cur.add(hex(0, -1));
        out.push(cur);
        cur = cur.add(hex(0, -1));
        out.push(cur);
        cur = cur.add(hex(-1, 0));
        out.push(cur);
        cur = cur.add(hex(-1, 1));
        out.push(cur);
        cur = cur.add(hex(-1, 1));
        out.push(cur);
        cur = cur.add(hex(0, 1));
        out.push(cur);
        cur = cur.add(hex(1, 0));
        out.push(cur);
        cur = cur.add(hex(1, 0));
        out.push(cur);
        out
    }

    /// The two perimeter hexes adjacent to the shape in direction `d`:
    /// the two members facing that side, each offset one step along `d`.
    pub fn direction_neighbors(&self, d: HexDir) -> (res: Vec<Hex>)
        requires
            tri_wf(*self),
            tri_fit(*self),
        ensures
            res@ == seq![
                spec_neighbor(tri_dir_pair(*self, d).0, d),
                spec_neighbor(tri_dir_pair(*self, d).1, d),
            ],
    {
        let i = d.to_ind();
        let (a, b) = if i <= 1 {
            (self.v2, self.v0)
        } else if i <= 3 {
            (self.v0, self.v1)
        } else {
            (self.v1, self.v2)
        };
        let mut out: Vec<Hex> = Vec::new();
        out.push(a.add(d.unit()));
        out.push(b.add(d.unit()));
        proof {
            assert(out@ =~= seq![
                spec_neighbor(tri_dir_pair(*self, d).0, d),
                spec_neighbor(tri_dir_pair(*self, d).1, d),
            ]);
        }
        out
    }
}

} // verus!
