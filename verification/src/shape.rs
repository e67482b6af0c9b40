//! The closed family of hex-tile shapes, as one tagged union dispatched
//! by exhaustive matching.
//!
//! Every variant offers the same capability set: an ordered tile
//! sequence, index lookups in both directions, containment, and neighbor
//! enumeration. The shared contract is that `hex_by_ind` enumerates
//! exactly the tiles of `hexes()` in the same order, and that
//! `contains` agrees with `ind_by_hex`.

use vstd::prelude::*;

use crate::hex::{ind_dir, neighbors_fit, spec_neighbor, Hex, HexDir};
use crate::line::{spec_find_from, Line, LineType};
use crate::point::Point;
use crate::rect::{rect_wf_parts, Rect};
use crate::tri::{spec_tri_ring, tri_dir_pair, tri_fit, tri_wf, Tri};

verus! {

/// A shape of hex tiles: one of the four closed variants.
#[derive(Clone, Copy, PartialEq, Eq, Structural, Debug)]
pub enum Shape {
    Single(Point),
    Triangle(Tri),
    Rect(Rect),
    Line(Line),
}

impl Shape {
    /// Well-formedness of the wrapped variant.
    pub open spec fn wf(self) -> bool {
        match self {
            Shape::Single(_) => true,
            Shape::Triangle(t) => tri_wf(t),
            Shape::Rect(r) => r.wf(),
            Shape::Line(l) => l.wf(),
        }
    }

    /// Number of tiles in the shape.
    pub open spec fn spec_area(self) -> int {
        match self {
            Shape::Single(_) => 1,
            Shape::Triangle(_) => 3,
            Shape::Rect(r) => r.spec_w() * r.spec_h(),
            Shape::Line(l) => l.spec_area(),
        }
    }

    /// The tile at index `i` of the shape's strong order.
    pub open spec fn spec_hex_at(self, i: int) -> Hex {
        match self {
            Shape::Single(p) => p.0,
            Shape::Triangle(t) => if i == 0 {
                t.v0
            } else if i == 1 {
                t.v1
            } else {
                t.v2
            },
            Shape::Rect(r) => r.spec_hex_at(i),
            Shape::Line(l) => l.spec_hex_at(i),
        }
    }

    /// The index of `hx` in the shape's strong order, when the shape
    /// contains it; a line reports the least index of a matching tile.
    pub open spec fn spec_ind_of(self, hx: Hex) -> Option<int> {
        match self {
            Shape::Single(p) => if hx == p.0 {
                Some(0int)
            } else {
                None
            },
            Shape::Triangle(t) => if hx == t.v0 {
                Some(0int)
            } else if hx == t.v1 {
                Some(1int)
            } else if hx == t.v2 {
                Some(2int)
            } else {
                None
            },
            Shape::Rect(r) => if r.spec_contains(hx) {
                Some(r.spec_ind_of(hx))
            } else {
                None
            },
            Shape::Line(l) => spec_find_from(l, hx, 0),
        }
    }

    /// Whether the full index round trip (`ind_by_hex` after
    /// `hex_by_ind` returns the index it was given) is established for
    /// this shape. It is for every variant except a generic-diagonal
    /// line, whose sampled tiles are not proved pairwise distinct here;
    /// such a line still reports the least matching index.
    pub open spec fn index_roundtrip_supported(self) -> bool {
        match self {
            Shape::Line(l) => l.t != LineType::G,
            _ => true,
        }
    }

    /// The shape's representative center hex.
    pub open spec fn spec_center(self) -> Hex {
        match self {
            Shape::Single(p) => p.0,
            Shape::Triangle(t) => t.v0,
            Shape::Rect(r) => r.spec_center(),
            Shape::Line(l) => l.h0,
        }
    }

    /// The shape's outer perimeter sequence.
    pub open spec fn spec_all_neighbors(self) -> Seq<Hex> {
        match self {
            Shape::Single(p) => Seq::new(6, |i: int| spec_neighbor(p.0, ind_dir(i))),
            Shape::Triangle(t) => Seq::new(9, |i: int| spec_tri_ring(t.v0, i)),
            Shape::Rect(_) => seq![Hex { q: 0i32, r: 0i32 }],
            Shape::Line(_) => seq![Hex { q: 0i32, r: 0i32 }],
        }
    }

    /// The shape's neighbor sequence in direction `d`.
    pub open spec fn spec_direction_neighbors(self, d: HexDir) -> Seq<Hex> {
        match self {
            Shape::Single(p) => seq![spec_neighbor(p.0, d)],
            Shape::Triangle(t) => seq![
                spec_neighbor(tri_dir_pair(t, d).0, d),
                spec_neighbor(tri_dir_pair(t, d).1, d),
            ],
            Shape::Rect(_) => seq![Hex { q: 0i32, r: 0i32 }],
            Shape::Line(_) => seq![Hex { q: 0i32, r: 0i32 }],
        }
    }

    /// Coordinate headroom needed to enumerate neighbors.
    pub open spec fn neighbors_ok(self) -> bool {
        match self {
            Shape::Single(p) => neighbors_fit(p.0),
            Shape::Triangle(t) => tri_fit(t),
            Shape::Rect(_) => true,
            Shape::Line(_) => true,
        }
    }

    /// Conditions under which the shape can be re-centered at `hx`.
    pub open spec fn move_ok(self, hx: Hex) -> bool {
        match self {
            Shape::Single(_) => true,
            Shape::Triangle(_) => hx.q > i32::MIN && hx.r > i32::MIN,
            Shape::Rect(r) => rect_wf_parts(
                hx.q - r.spec_w() / 2 + r.spec_h() / 2,
                hx.r - r.spec_h() / 2,
                r.spec_w(),
                r.spec_h(),
            ),
            Shape::Line(l) => {
                &&& crate::frac::coord_bounded(hx)
                &&& -crate::frac::MAX_COORD <= l.h1.q - l.h0.q + hx.q <= crate::frac::MAX_COORD
                &&& -crate::frac::MAX_COORD <= l.h1.r - l.h0.r + hx.r <= crate::frac::MAX_COORD
            },
        }
    }

    /// The same kind of shape re-centered at `hx`.
    pub open spec fn spec_move_to(self, hx: Hex) -> Shape {
        match self {
            Shape::Single(_) => Shape::Single(Point(hx)),
            Shape::Triangle(_) => Shape::Triangle(
                Tri {
                    v0: hx,
                    v1: Hex { q: hx.q, r: (hx.r - 1) as i32 },
                    v2: Hex { q: (hx.q - 1) as i32, r: hx.r },
                },
            ),
            Shape::Rect(r) => Shape::Rect(Rect { h0: r.spec_anchor_for(hx), w: r.w, h: r.h }),
            Shape::Line(l) => Shape::Line(
                Line {
                    h0: hx,
                    h1: Hex {
                        q: (l.h1.q - l.h0.q + hx.q) as i32,
                        r: (l.h1.r - l.h0.r + hx.r) as i32,
                    },
                    t: l.t,
                },
            ),
        }
    }

    /// The shape's representative center hex.
    pub fn center(&self) -> (res: Hex)
        requires
            self.wf(),
        ensures
            res == self.spec_center(),
    {
        match self {
            Shape::Single(p) => p.center(),
            Shape::Triangle(t) => t.center(),
            Shape::Rect(r) => r.center(),
            Shape::Line(l) => l.center(),
        }
    }

    /// Number of tiles in the shape.
    pub fn area(&self) -> (res: usize)
        requires
            self.wf(),
        ensures
            res == self.spec_area(),
    {
        match self {
            Shape::Single(p) => p.area(),
            Shape::Triangle(t) => t.area(),
            Shape::Rect(r) => r.area(),
            Shape::Line(l) => l.area(),
        }
    }

    /// The shape's tiles, in its strong index order.
    pub fn hexes(&self) -> (res: Vec<Hex>)
        requires
            self.wf(),
        ensures
            res.len() == self.spec_area(),
            forall|i: int| 0 <= i < res.len() ==> res[i] == self.spec_hex_at(i),
    {
        match self {
            Shape::Single(p) => p.hexes(),
            Shape::Triangle(t) => t.hexes(),
            Shape::Rect(r) => r.hexes(),
            Shape::Line(l) => l.hexes(),
        }
    }

    /// The tile at index `ind`, when the index is inside the shape.
    pub fn hex_by_ind(&self, ind: usize) -> (res: Option<Hex>)
        requires
            self.wf(),
        ensures
            res == if ind < self.spec_area() {
                Some(self.spec_hex_at(ind as int))
            } else {
                None::<Hex>
            },
    {
        match self {
            Shape::Single(p) => p.hex_by_ind(ind),
            Shape::Triangle(t) => t.hex_by_ind(ind),
            Shape::Rect(r) => r.hex_by_ind(ind),
            Shape::Line(l) => l.hex_by_ind(ind),
        }
    }

    /// The index of `hx` in the shape's strong order, when the shape
    /// contains it.
    pub fn ind_by_hex(&self, hx: Hex) -> (res: Option<usize>)
        requires
            self.wf(),
        ensures
            res is Some <==> self.spec_ind_of(hx) is Some,
            res is Some ==> res->0 == self.spec_ind_of(hx)->0,
    {
        match self {
            Shape::Single(p) => p.ind_by_hex(hx),
            Shape::Triangle(t) => t.ind_by_hex(hx),
            Shape::Rect(r) => r.ind_by_hex(hx),
            Shape::Line(l) => l.ind_by_hex(hx),
        }
    }

    /// Whether the shape contains `hx`; agrees with `ind_by_hex`.
    pub fn contains(&self, hx: Hex) -> (res: bool)
        requires
            self.wf(),
        ensures
            res == (self.spec_ind_of(hx) is Some),
    {
        match self {
            Shape::Single(p) => p.contains(hx),
            Shape::Triangle(t) => t.contains(hx),
            Shape::Rect(r) => r.contains(hx),
            Shape::Line(l) => l.contains(hx),
        }
    }

    /// A copy of the shape re-centered at `hx`.
    pub fn move_to(&self, hx: Hex) -> (res: Shape)
        requires
            self.wf(),
            self.move_ok(hx),
        ensures
            res == self.spec_move_to(hx),
            res.wf(),
    {
        match self {
            Shape::Single(p) => Shape::Single(p.move_to(hx)),
            Shape::Triangle(t) => Shape::Triangle(t.move_to(hx)),
            Shape::Rect(r) => Shape::Rect(r.move_to(hx)),
            Shape::Line(l) => Shape::Line(l.move_to(hx)),
        }
    }

    /// The shape's outer perimeter tiles. Lines and rectangles do not
    /// define a perimeter walk and report the single zero hex, as the
    /// variant contracts state.
    pub fn all_neighbors(&self) -> (res: Vec<Hex>)
        requires
            self.wf(),
            self.neighbors_ok(),
        ensures
            res@ == self.spec_all_neighbors(),
    {
        match self {
            Shape::Single(p) => {
                let out = p.all_neighbors();
                proof {
                    assert(out@ =~= self.spec_all_neighbors());
                }
                out
            },
            Shape::Triangle(t) => {
                let out = t.all_neighbors();
                proof {
                    assert(out@ =~= self.spec_all_neighbors());
                }
                out
            },
            Shape::Rect(_) => {
                let mut out: Vec<Hex> = Vec::new();
                out.push(Hex { q: 0, r: 0 });
                proof {
                    assert(out@ =~= self.spec_all_neighbors());
                }
                out
            },
            Shape::Line(_) => {
                let mut out: Vec<Hex> = Vec::new();
                out.push(Hex { q: 0, r: 0 });
                proof {
                    assert(out@ =~= self.spec_all_neighbors());
                }
                out
            },
        }
    }

    /// The shape's neighbor tiles in direction `d`. Lines and rectangles
    /// do not define directional neighbors and report the single zero
    /// hex, as the variant contracts state.
    pub fn direction_neighbors(&self, d: HexDir) -> (res: Vec<Hex>)
        requires
            self.wf(),
            self.neighbors_ok(),
        ensures
            res@ == self.spec_direction_neighbors(d),
    {
        match self {
            Shape::Single(p) => {
                let out = p.direction_neighbors(d);
                proof {
                    assert(out@ =~= self.spec_direction_neighbors(d));
                }
                out
            },
            Shape::Triangle(t) => {
                let out = t.direction_neighbors(d);
                proof {
                    assert(out@ =~= self.spec_direction_neighbors(d));
                }
                out
            },
            Shape::Rect(_) => {
                let mut out: Vec<Hex> = Vec::new();
                out.push(Hex { q: 0, r: 0 });
                proof {
                    assert(out@ =~= self.spec_direction_neighbors(d));
                }
                out
            },
            Shape::Line(_) => {
                let mut out: Vec<Hex> = Vec::new();
                out.push(Hex { q: 0, r: 0 });
                proof {
                    assert(out@ =~= self.spec_direction_neighbors(d));
                }
                out
            },
        }
    }
}

/// The tiles among the first `n` of `s` that `other` also contains, in
/// `s`'s index order.
pub open spec fn spec_overlap_upto(s: Shape, other: Shape, n: int) -> Seq<Hex>
    decreases n,
{
    if n <= 0 {
        Seq::empty()
    } else if other.spec_ind_of(s.spec_hex_at(n - 1)) is Some {
        spec_overlap_upto(s, other, n - 1).push(s.spec_hex_at(n - 1))
    } else {
        spec_overlap_upto(s, other, n - 1)
    }
}

/// The tiles of `s` that `other` also contains, in `s`'s index order.
pub open spec fn spec_overlap(s: Shape, other: Shape) -> Seq<Hex> {
    spec_overlap_upto(s, other, s.spec_area())
}

/// Shapes that can report which of their tiles another shape shares.
pub trait Overlap {
    /// Well-formedness that the overlap enumeration relies on.
    spec fn overlap_wf(&self) -> bool;

    /// The tiles this shape shares with `other`, in this shape's order.
    spec fn overlap_spec(&self, other: &Shape) -> Seq<Hex>;

    /// Enumerates the tiles of this shape that `other` also contains, in
    /// this shape's index order.
    fn overlap_iter(&self, other: &Shape) -> (res: Vec<Hex>)
        requires
            self.overlap_wf(),
            other.wf(),
        ensures
            res@ == self.overlap_spec(other),
    ;

    /// Whether this shape shares at least one tile with `other`.
    fn overlaps(&self, other: &Shape) -> (res: bool)
        requires
            self.overlap_wf(),
            other.wf(),
        ensures
            res == (self.overlap_spec(other).len() > 0),
    ;
}

impl Overlap for Shape {
    open spec fn overlap_wf(&self) -> bool {
        self.wf()
    }

    open spec fn overlap_spec(&self, other: &Shape) -> Seq<Hex> {
        spec_overlap(*self, *other)
    }

    fn overlap_iter(&self, other: &Shape) -> (res: Vec<Hex>) {
        let tiles = self.hexes();
        let mut out: Vec<Hex> = Vec::new();
        let mut i: usize = 0;
        while i < tiles.len()
            invariant
                self.wf(),
                other.wf(),
                tiles.len() == self.spec_area(),
                forall|j: int| 0 <= j < tiles.len() ==> tiles[j] == self.spec_hex_at(j),
                i <= tiles.len(),
                out@ == spec_overlap_upto(*self, *other, i as int),
            decreases tiles.len() - i,
        {
            let h = tiles[i];
            if other.contains(h) {
                out.push(h);
            }
            i += 1;
        }
        out
    }

    fn overlaps(&self, other: &Shape) -> (res: bool) {
        let shared = self.overlap_iter(other);
        shared.len() > 0
    }
}

/// The shared shape invariant: `hex_by_ind` succeeds exactly on the
/// indices below `area`, and on a contained hex `ind_by_hex` inverts it.
pub proof fn lemma_shape_index_inverse(s: Shape, hx: Hex)
    requires
        s.wf(),
        s.spec_ind_of(hx) is Some,
    ensures
        0 <= s.spec_ind_of(hx)->0 < s.spec_area(),
        s.spec_hex_at(s.spec_ind_of(hx)->0) == hx,
{
    match s {
        Shape::Single(_) => {},
        Shape::Triangle(_) => {},
        Shape::Rect(r) => {
            crate::rect::lemma_rect_bijection_rev(r, hx);
        },
        Shape::Line(l) => {
            crate::line::lemma_find_from_spec(l, hx, 0);
        },
    }
}

/// The shared shape invariant, forward direction: the tile at an
/// in-range index lies in the shape, and `ind_by_hex` maps it back to
/// that index (see [`Shape::index_roundtrip_supported`] for the one
/// variant whose round trip is not established).
pub proof fn lemma_shape_index_roundtrip(s: Shape, i: int)
    requires
        s.wf(),
        0 <= i < s.spec_area(),
        s.index_roundtrip_supported(),
    ensures
        s.spec_ind_of(s.spec_hex_at(i)) is Some,
        s.spec_ind_of(s.spec_hex_at(i))->0 == i,
{
    match s {
        Shape::Single(_) => {},
        Shape::Triangle(t) => {
            assert(t.v1.r != t.v0.r && t.v2.q != t.v0.q && t.v1.q != t.v2.q);
        },
        Shape::Rect(r) => {
            crate::rect::lemma_rect_bijection(r, i);
        },
        Shape::Line(l) => {
            crate::line::lemma_line_index_roundtrip(l, i);
        },
    }
}

} // verus!
