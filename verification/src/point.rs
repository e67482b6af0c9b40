//! The single-hex shape.

use vstd::prelude::*;

use crate::frac::{spec_round, FracHex};
use crate::hex::{ind_dir, neighbors_fit, spec_neighbor, Hex, HexDir};

verus! {

/// A shape made of exactly one hex tile.
#[derive(Clone, Copy, PartialEq, Eq, Structural, Debug)]
pub struct Point(pub Hex);

impl Point {
    /// Builds the single-hex shape at `hex`.
    pub fn new(hex: Hex) -> (res: Point)
        ensures
            res.0 == hex,
    {
        Point(hex)
    }

    /// The shape's center: its only hex.
    pub fn center(&self) -> (res: Hex)
        ensures
            res == self.0,
    {
        self.0
    }

    /// The hex nearest to a fractional position, by cube rounding.
    pub fn nearest_center(&self, hex: FracHex) -> (res: Hex)
        requires
            hex.wf(),
        ensures
            res.q == spec_round(hex.q_num(), hex.r_num(), hex.denom()).0,
            res.r == spec_round(hex.q_num(), hex.r_num(), hex.denom()).1,
    {
        hex.round()
    }

    /// Number of tiles in the shape.
    pub fn area(&self) -> (res: usize)
        ensures
            res == 1,
    {
        1
    }

    /// The shape's tiles in index order: just the one hex.
    pub fn hexes(&self) -> (res: Vec<Hex>)
        ensures
            res@ == seq![self.0],
    {
        let mut out: Vec<Hex> = Vec::new();
        out.push(self.0);
        proof {
            assert(out@ =~= seq![self.0]);
        }
        out
    }

    /// The tile at index `ind`: the hex for index zero, nothing otherwise.
    pub fn hex_by_ind(&self, ind: usize) -> (res: Option<Hex>)
        ensures
            res == if ind == 0 {
                Some(self.0)
            } else {
                None::<Hex>
            },
    {
        if ind == 0 {
            Some(self.0)
        } else {
            None
        }
    }

    /// The index of `hex`: zero when it is the shape's hex, nothing
    /// otherwise.
    pub fn ind_by_hex(&self, hex: Hex) -> (res: Option<usize>)
        ensures
            res == if hex == self.0 {
                Some(0usize)
            } else {
                None::<usize>
            },
    {
        if hex == self.0 {
            Some(0)
        } else {
            None
        }
    }

    /// Whether the shape contains `hex`.
    pub fn contains(&self, hex: Hex) -> (res: bool)
        ensures
            res == (hex == self.0),
    {
        self.0 == hex
    }

    /// A copy of the shape centered at `hex`.
    pub fn move_to(&self, hex: Hex) -> (res: Point)
        ensures
            res.0 == hex,
    {
        Point(hex)
    }

    /// The outer perimeter: all six neighbors of the hex, in canonical
    /// direction order.
    pub fn all_neighbors(&self) -> (res: Vec<Hex>)
        requires
            neighbors_fit(self.0),
        ensures
            res.len() == 6,
            forall|i: int| 0 <= i < 6 ==> res[i] == spec_neighbor(self.0, ind_dir(i)),
    {
        self.0.neighbors()
    }

    /// The neighbors in direction `d`: the one adjacent hex on that side.
    pub fn direction_neighbors(&self, d: HexDir) -> (res: Vec<Hex>)
        requires
            neighbors_fit(self.0),
        ensures
            res@ == seq![spec_neighbor(self.0, d)],
    {
        let mut out: Vec<Hex> = Vec::new();
        out.push(self.0.neighbor(d));
        proof {
            assert(out@ =~= seq![spec_neighbor(self.0, d)]);
        }
        out
    }
}

} // verus!
